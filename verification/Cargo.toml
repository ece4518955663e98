[package]
name = "geojson_to_shp"
version = "0.1.0"
edition = "2021"
publish = false

[dependencies]
geo-types = "*"
geojson = "*"
serde_json = { version = "*", features = ["preserve_order"] }
shapefile = { version = "*", features = ["geo-types"] }
