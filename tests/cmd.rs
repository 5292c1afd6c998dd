use sitemap_from_files::cmd::{Cmd, OutputTo};
use sitemap_from_files::config::Config;

fn config(sitemap_path: Option<&str>) -> Config {
    Config {
        root_dir: "/site".to_string(),
        root_url: "https://example.com/".to_string(),
        sitemap_path: sitemap_path.map(|s| s.to_string()),
        rules: Vec::new(),
    }
}

#[test]
fn dash_means_stdout() {
    assert!(matches!(OutputTo::parse("-"), OutputTo::Stdout));
    assert!(matches!(OutputTo::parse("out.xml"), OutputTo::File(p) if p == "out.xml"));
    let parsed: OutputTo = "x/y.xml".parse().unwrap();
    assert!(matches!(parsed, OutputTo::File(p) if p == "x/y.xml"));
}

#[test]
fn command_line_output_wins() {
    let cmd = Cmd { output: Some(OutputTo::File("a.xml".to_string())), verbose: false, config_file: "c.toml".to_string() };
    assert!(matches!(cmd.output(&config(Some("b.xml"))), OutputTo::File(p) if p == "a.xml"));
    let cmd = Cmd { output: Some(OutputTo::Stdout), verbose: false, config_file: "c.toml".to_string() };
    assert!(matches!(cmd.output(&config(Some("b.xml"))), OutputTo::Stdout));
}

#[test]
fn configured_path_then_stdout() {
    let cmd = Cmd { output: None, verbose: true, config_file: "c.toml".to_string() };
    assert!(matches!(cmd.output(&config(Some("b.xml"))), OutputTo::File(p) if p == "b.xml"));
    assert!(matches!(cmd.output(&config(None)), OutputTo::Stdout));
}
