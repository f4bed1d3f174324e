use wp_migrate_sync::config::Config;

#[test]
fn config_defaults() {
    let c = Config::new();
    assert_eq!(c.source, "./");
    assert_eq!(c.destination, "./");
    assert_eq!(c.exclude, "");
    assert!(!c.dry_run);
    assert!(!c.delete);
    assert_eq!(c.sym_uploads, "");
}

#[test]
fn config_from_args() {
    let mut c = Config::new();
    let args = vec!["./wp-migrate-sync", "--source=./here", "--destination=./there", "--exclude=./wp-content/uploads/"];
    let unknown = c.from_args(&args);
    assert!(unknown.is_empty());
    assert_eq!(c.source, "./here");
    assert_eq!(c.destination, "./there");
    assert_eq!(c.exclude, "./wp-content/uploads/");
    assert!(!c.dry_run);
}

#[test]
fn config_from_args_switches_and_unknown() {
    let mut c = Config::new();
    let args = vec!["prog", "--dry-run", "--verbose=1", "--delete=", "source=x", "--sym-uploads=a=b"];
    let unknown = c.from_args(&args);
    assert_eq!(unknown, vec!["--verbose".to_string(), "source".to_string()]);
    assert!(c.dry_run);
    assert!(c.delete);
    assert_eq!(c.source, "./");
    assert_eq!(c.sym_uploads, "a");
}

#[test]
fn config_from_args_skips_the_program_name() {
    let mut c = Config::new();
    assert!(c.from_args(&vec!["--source=/x"]).is_empty());
    assert_eq!(c.source, "./");
    assert!(c.from_args(&Vec::new()).is_empty());
}

#[test]
fn config_from_file() {
    let text = "source = user@host:/var/www\n\n  destination=/srv/site  \r\ndry-run\ncolour = blue\nexclude = cache\n";
    let (c, unknown) = Config::from_file(text);
    assert_eq!(c.source, "user@host:/var/www");
    assert_eq!(c.destination, "/srv/site");
    assert_eq!(c.exclude, "cache");
    assert!(c.dry_run);
    assert!(!c.delete);
    assert_eq!(unknown, vec!["colour".to_string()]);
}

#[test]
fn config_from_empty_file() {
    let (c, unknown) = Config::from_file("");
    assert_eq!(c.source, "./");
    assert!(unknown.is_empty());
    let (c, _) = Config::from_file("delete");
    assert!(c.delete);
}

#[test]
fn config_from_file_trims_unicode_whitespace() {
    let (c, unknown) = Config::from_file("\u{3000}source\u{A0}= /var/www\u{2003}\n\u{85}delete\u{205F}\n");
    assert_eq!(c.source, "/var/www");
    assert!(c.delete);
    assert!(unknown.is_empty());
}
