use aetherment::cli::{Cli, CliError};
use aetherment::convert::{convert, Conversion};

fn cli(infile: Option<Option<&str>>, informat: Option<&str>, outfile: Option<Option<&str>>, outformat: Option<&str>) -> Cli {
    Cli {
        infile: infile.map(|f| f.map(|s| s.to_string())),
        informat: informat.map(|s| s.to_string()),
        outfile: outfile.map(|f| f.map(|s| s.to_string())),
        outformat: outformat.map(|s| s.to_string()),
    }
}

#[test]
fn formats_come_from_file_names() {
    let p = cli(Some(Some("in/skin.tex")), None, Some(Some("out/skin.v2.dds")), None).plan().unwrap();
    assert_eq!(p.infile.as_deref(), Some("in/skin.tex"));
    assert_eq!(p.informat, "tex");
    assert_eq!(p.outfile.as_deref(), Some("out/skin.v2.dds"));
    assert_eq!(p.outformat, "dds");
}

#[test]
fn named_formats_win() {
    let p = cli(Some(None), Some("atex"), Some(Some("a.bin")), Some("png")).plan().unwrap();
    assert!(p.infile.is_none());
    assert_eq!((p.informat.as_str(), p.outformat.as_str()), ("atex", "png"));
}

#[test]
fn missing_arguments_in_order() {
    assert_eq!(cli(None, None, None, None).plan().err(), Some(CliError::MissingInfile));
    assert_eq!(cli(Some(None), None, None, None).plan().err(), Some(CliError::MissingInformat));
    assert_eq!(cli(Some(Some("a.tex")), None, None, None).plan().err(), Some(CliError::MissingOutfile));
    assert_eq!(cli(Some(Some("a.tex")), None, Some(None), None).plan().err(), Some(CliError::MissingOutformat));
    assert_eq!(CliError::MissingInformat.message(), "--informat is required when using stdin");
    assert_eq!(CliError::MissingOutfile.message(), "--outfile is required");
}

#[test]
fn conversions_between_extensions() {
    assert_eq!(convert("dds", "dds"), Conversion::Copy);
    assert_eq!(convert("tex", "dds"), Conversion::TexToDds);
    assert_eq!(convert("atex", "png"), Conversion::TexToPng);
    assert_eq!(convert("dds", "atex"), Conversion::DdsToTex);
    assert_eq!(convert("png", "tex"), Conversion::PngToTex);
    assert_eq!(convert("tex", "tga"), Conversion::Unsupported);
    assert_eq!(convert("png", "dds"), Conversion::Unsupported);
    assert_eq!(convert("tex", "atex"), Conversion::Unsupported);
}
