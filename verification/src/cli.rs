//! The command line: a document, or the path of one, and where to write.

use vstd::prelude::*;
use vstd::string::StringExecFns;

verus! {

/// What is said when too few arguments are given.
pub const USAGE: &'static str =
    "Not enough arguments! Requires 2 positional arguments. \nFor example:\n `./geojson_to_shp [path_to_file OR geojson_as_string] [output_file_path_no_extension]";

/// The two positional arguments of a run.
pub struct Cli {
    geojson: String,
    output_path: String,
}

/// The mathematical content of a [`Cli`].
pub struct CliModel {
    /// The document itself, or the path of the file that holds it.
    pub geojson: Seq<char>,
    /// The path of the output files, without extension.
    pub output_path: Seq<char>,
}

impl View for Cli {
    type V = CliModel;

    closed spec fn view(&self) -> CliModel {
        CliModel { geojson: self.geojson@, output_path: self.output_path@ }
    }
}

impl Cli {
    /// Reads the arguments of a run, the program's name first.
    ///
    /// The first two arguments after the name are taken, in order, and any
    /// further ones are ignored. With fewer than two the usage text comes back.
    pub fn new(args: &[String]) -> (parsed: Result<Cli, String>)
        ensures
            args@.len() >= 3 ==> parsed is Ok,
            args@.len() < 3 ==> parsed is Err,
            parsed matches Ok(cli) ==> cli@.geojson == args@[1]@ && cli@.output_path == args@[2]@,
            parsed matches Err(message) ==> message@ == USAGE@,
    {
        if args.len() < 3 {
            return Err(String::from_str(USAGE));
        }
        let geojson = args[1].clone();
        let output_path = args[2].clone();
        Ok(Cli { geojson, output_path })
    }

    /// The first argument: the document, or the path of the file that holds it.
    pub fn geojson(&self) -> (text: &String)
        ensures
            text@ == self@.geojson,
    {
        &self.geojson
    }

    /// The second argument: the path of the output files, without extension.
    pub fn output_path(&self) -> (text: &String)
        ensures
            text@ == self@.output_path,
    {
        &self.output_path
    }

    /// The text of the document to convert.
    ///
    /// `file` is what was read from the path that the first argument names,
    /// or `None` where it names no file: the argument is then the document.
    pub fn document_text(&self, file: Option<String>) -> (text: String)
        ensures
            text@ == (match file {
                Some(contents) => contents@,
                None => self@.geojson,
            }),
    {
        match file {
            Some(contents) => contents,
            None => self.geojson.clone(),
        }
    }
}

} // verus!
