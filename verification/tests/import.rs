use protox::context::import::ImportContext;
use protox::error::Error;

#[test]
fn import_file_path() -> Result<(), Error> {
    let path = "root/sub/file_name.txt";
    let context = ImportContext::new(path)?;
    assert_eq!(context.file_path(), path);
    Ok(())
}

#[test]
fn import_file_name() -> Result<(), Error> {
    let context = ImportContext::new("root/sub/file_name.txt")?;
    assert_eq!(context.file_name(), "file_name");
    Ok(())
}

#[test]
fn import_file_name_with_ext() -> Result<(), Error> {
    let context = ImportContext::new("root/sub/file_name.txt")?;
    assert_eq!(context.file_name_with_ext(), "file_name.txt");
    Ok(())
}

#[test]
fn import_paths_use_forward_slashes() -> Result<(), Error> {
    let context = ImportContext::new("root\\sub/a.b.proto")?;
    assert_eq!(context.file_path(), "root/sub/a.b.proto");
    assert_eq!(context.file_name(), "a.b");
    Ok(())
}

#[test]
fn import_without_file_name_is_error() {
    assert!(matches!(ImportContext::new("root/.."), Err(Error::NoFileName(_))));
    assert!(matches!(ImportContext::new(""), Err(Error::NoFileName(_))));
}
