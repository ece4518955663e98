use geojson_to_shp::cli::USAGE;
use geojson_to_shp::Cli;

fn args(list: &[&str]) -> Vec<String> {
    list.iter().map(|item| item.to_string()).collect()
}

#[test]
fn cli_takes_the_two_positional_arguments() {
    let cli = Cli::new(&args(&["geojson_to_shp", "points.geojson", "out/points"])).unwrap();
    assert_eq!(cli.geojson(), "points.geojson");
    assert_eq!(cli.output_path(), "out/points");
}

#[test]
fn cli_ignores_further_arguments() {
    let cli = Cli::new(&args(&["prog", "a", "b", "c", "d"])).unwrap();
    assert_eq!(cli.geojson(), "a");
    assert_eq!(cli.output_path(), "b");
}

#[test]
fn cli_refuses_too_few_arguments_with_the_usage_text() {
    let expected = [
        "Not enough arguments! Requires 2 positional arguments.",
        "\nFor example:\n `./geojson_to_shp [path_to_file OR geojson_as_string] [output_file_path_no_extension]",
    ]
    .join(" ");
    for given in [
        args(&[]),
        args(&["prog"]),
        args(&["prog", "only-one"]),
    ] {
        match Cli::new(&given) {
            Ok(_) => panic!("accepted {} arguments", given.len()),
            Err(message) => {
                assert_eq!(message, expected);
                assert_eq!(message, USAGE);
            }
        }
    }
}

#[test]
fn cli_document_is_the_file_where_there_is_one() {
    let cli = Cli::new(&args(&["prog", "points.geojson", "out"])).unwrap();
    let text = cli.document_text(Some(String::from("{\"type\":\"FeatureCollection\"}")));
    assert_eq!(text, "{\"type\":\"FeatureCollection\"}");
}

#[test]
fn cli_document_is_the_argument_where_there_is_no_file() {
    let cli = Cli::new(&args(&["prog", "{\"type\":\"Point\"}", "out"])).unwrap();
    assert_eq!(cli.document_text(None), "{\"type\":\"Point\"}");
}
