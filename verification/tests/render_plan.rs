use protox::case::Case;
use protox::config::RendererConfig;
use protox::descriptor::FileDescriptor;
use protox::error::Error;
use protox::render_plan::{
    collect_dirs_and_files, collect_package_to_file_map, generated_header, insert_all_parents, is_ignored_file,
    metadata_file_path, metadata_for_directories, output_file_name, package_metadata,
    plan_file_outputs, plan_package_outputs, rename_file_name, DEFAULT_GENERATED_HEADER,
};

const OUT: &str = "out";

fn fake_file_with_package(name: &str, package: &str) -> FileDescriptor {
    FileDescriptor { name: Some(name.to_owned()), package: Some(package.to_owned()), ..Default::default() }
}

fn fake_file_empty(name: &str) -> FileDescriptor {
    FileDescriptor { name: Some(name.to_owned()), ..Default::default() }
}

fn test_file_set() -> Vec<FileDescriptor> {
    vec![
        fake_file_empty("file1"),
        fake_file_with_package("test/file2", "test"),
        fake_file_with_package("test/file3", "test"),
        fake_file_with_package("test/sub/file4", "test.sub"),
        fake_file_with_package("other/sub/inner/file5", "other.sub.inner"),
    ]
}

fn written_paths(config: &RendererConfig, files: &Vec<FileDescriptor>) -> Vec<String> {
    if config.one_file_per_package {
        plan_package_outputs(config, files, OUT).into_iter().map(|o| o.path).collect()
    } else {
        plan_file_outputs(config, files, OUT).into_iter().map(|(p, _)| p).collect()
    }
}

fn metadata_paths(config: &RendererConfig, files: &Vec<FileDescriptor>) -> Result<Vec<String>, Error> {
    if config.one_file_per_package {
        let outputs = plan_package_outputs(config, files, OUT);
        let context = package_metadata(&outputs);
        Ok(vec![metadata_file_path(OUT, context.relative_dir(), config)])
    } else {
        let contexts = metadata_for_directories(files)?;
        Ok(contexts.iter().map(|c| metadata_file_path(OUT, c.relative_dir(), config)).collect())
    }
}

fn has(paths: &[String], p: &str) -> bool {
    paths.iter().any(|x| x == p)
}

#[test]
fn render_files() -> Result<(), Error> {
    let config = RendererConfig::default();
    let files = test_file_set();
    let paths = written_paths(&config, &files);
    assert!(has(&paths, "out/file1"));
    assert!(has(&paths, "out/test/file2"));
    assert!(has(&paths, "out/test/file3"));
    assert!(has(&paths, "out/test/sub/file4"));
    assert!(has(&paths, "out/other/sub/inner/file5"));

    let meta = metadata_paths(&config, &files)?;
    assert!(has(&meta, "out/metadata"));
    assert!(has(&meta, "out/test/metadata"));
    assert!(has(&meta, "out/test/sub/metadata"));
    assert!(has(&meta, "out/other/sub/inner/metadata"));
    Ok(())
}

#[test]
fn render_files_collapsed() -> Result<(), Error> {
    let mut config = RendererConfig::default();
    config.one_file_per_package = true;
    config.default_package_file_name = "pkg-root".to_owned();
    let files = test_file_set();
    let paths = written_paths(&config, &files);
    assert!(has(&paths, "out/pkg-root"));
    assert!(has(&paths, "out/test"));
    assert!(has(&paths, "out/test-sub"));
    assert!(has(&paths, "out/other-sub-inner"));
    assert!(has(&metadata_paths(&config, &files)?, "out/metadata"));
    Ok(())
}

#[test]
fn renders_file_with_configured_case() {
    let mut config = RendererConfig::default();
    config.case_config.file_name = Case::UpperSnake;
    let paths = written_paths(&config, &vec![fake_file_empty("fileName")]);
    assert_eq!(paths, vec!["out/FILE_NAME".to_string()]);
}

#[test]
fn render_files_collapsed_with_configured_case() {
    let mut config = RendererConfig::default();
    config.one_file_per_package = true;
    config.default_package_file_name = "pkgRoot".to_owned();
    config.case_config.file_name = Case::UpperSnake;
    let paths = written_paths(&config, &vec![fake_file_empty("fileName")]);
    assert_eq!(paths, vec!["out/PKG_ROOT".to_string()]);
}

#[test]
fn does_not_render_ignored_files() {
    let config = RendererConfig {
        ignored_files: vec!["file1".to_owned(), "test/sub/file4".to_owned()],
        ..Default::default()
    };
    let paths = written_paths(&config, &test_file_set());
    assert!(!has(&paths, "out/file1"));
    assert!(has(&paths, "out/test/file2"));
    assert!(has(&paths, "out/test/file3"));
    assert!(!has(&paths, "out/test/sub/file4"));
    assert!(has(&paths, "out/other/sub/inner/file5"));
}

#[test]
fn does_not_render_ignored_files_collapsed() {
    let config = RendererConfig {
        one_file_per_package: true,
        default_package_file_name: "pkg-root".to_owned(),
        ignored_files: vec!["file1".to_owned(), "test/sub/file4".to_owned()],
        ..Default::default()
    };
    let paths = written_paths(&config, &test_file_set());
    assert!(!has(&paths, "out/pkg-root"), "should not exist because it contains an ignored file");
    assert!(has(&paths, "out/test"));
    assert!(!has(&paths, "out/test-sub"), "should not exist because it contains an ignored file");
    assert!(has(&paths, "out/other-sub-inner"));
}

#[test]
fn file_without_name_is_ignored() {
    let config = RendererConfig::default();
    assert!(is_ignored_file(&config, &FileDescriptor::default()));
    assert!(!is_ignored_file(&config, &fake_file_empty("a")));
    assert!(output_file_name(&FileDescriptor::default(), "rs").is_err());
    assert_eq!(output_file_name(&fake_file_empty("dir/a.proto"), "rs"), Ok("dir/a.rs".to_string()));
    assert!(written_paths(&config, &vec![FileDescriptor::default()]).is_empty());
}

#[test]
fn mod_files() -> Result<(), Error> {
    let files = vec![
        fake_file_empty("file1"),
        fake_file_empty("test/file2"),
        fake_file_empty("test/sub/file3"),
        fake_file_empty("other/sub/inner/file4"),
    ];
    let (_, paths) = collect_dirs_and_files(&files)?;
    assert!(paths.contains(&"file1".to_string()));
    assert!(paths.contains(&"test/file2".to_string()));
    assert!(paths.contains(&"test/sub/file3".to_string()));
    assert!(paths.contains(&"other/sub/inner/file4".to_string()));
    Ok(())
}

#[test]
fn directories() -> Result<(), Error> {
    let files = vec![fake_file_empty("file1"), fake_file_empty("test/file2"), fake_file_empty("test/sub/file3")];
    let (dirs, _) = collect_dirs_and_files(&files)?;
    assert!(dirs.contains(&String::new()));
    assert!(dirs.contains(&"test".to_string()));
    assert!(dirs.contains(&"test/sub".to_string()));
    Ok(())
}

#[test]
fn includes_directories_with_no_files() -> Result<(), Error> {
    let files = vec![fake_file_empty("test/sub/inner/file4")];
    let (dirs, _) = collect_dirs_and_files(&files)?;
    assert!(dirs.contains(&String::new()));
    assert!(dirs.contains(&"test".to_string()));
    assert!(dirs.contains(&"test/sub".to_string()));
    assert!(dirs.contains(&"test/sub/inner".to_string()));
    Ok(())
}

#[test]
fn ignores_duplicate_dirs() -> Result<(), Error> {
    let files = vec![fake_file_empty("test/file1"), fake_file_empty("test/file2"), fake_file_empty("test/file3")];
    let (dirs, _) = collect_dirs_and_files(&files)?;
    assert_eq!(dirs.len(), 2);
    assert!(dirs.contains(&String::new()));
    assert!(dirs.contains(&"test".to_string()));
    Ok(())
}

#[test]
fn absolute_or_unnamed_files_have_no_directories() {
    assert!(matches!(collect_dirs_and_files(&vec![fake_file_empty("/abs/file")]), Err(Error::NoParent(_))));
    assert!(matches!(collect_dirs_and_files(&vec![FileDescriptor::default()]), Err(Error::Missing(_))));
    let mut dirs = Vec::new();
    assert!(insert_all_parents(&mut dirs, "").is_err());
}

#[test]
fn collects_unique_package_to_multiple_files() {
    let files = vec![
        fake_file_with_package("file0", "root"),
        fake_file_with_package("file1", "root"),
        fake_file_with_package("file2", "root.sub"),
        fake_file_with_package("file3", "other.sub"),
    ];
    let groups = collect_package_to_file_map(&files, "default");
    assert_eq!(
        groups,
        vec![
            ("root".to_string(), vec![0, 1]),
            ("root.sub".to_string(), vec![2]),
            ("other.sub".to_string(), vec![3]),
        ]
    );
}

#[test]
fn files_without_package_use_default() {
    let files = vec![fake_file_empty("a"), fake_file_with_package("b", "p"), fake_file_empty("c")];
    let groups = collect_package_to_file_map(&files, "default");
    assert_eq!(groups, vec![("default".to_string(), vec![0, 2]), ("p".to_string(), vec![1])]);
}

#[test]
fn package_to_file_path() {
    assert_eq!(protox::render_plan::package_to_file_path("root/path/to", "package", "test"), "root/path/to/package.test");
    assert_eq!(protox::render_plan::package_to_file_path("root", "a.b.c", "rs"), "root/a_b_c.rs");
    assert_eq!(protox::render_plan::package_to_file_path("root", "a.b", ""), "root/a_b");
}

#[test]
fn metadata_file_name_with_config() {
    let mut config = RendererConfig::default();
    config.metadata_file_name = "test".to_owned();
    config.file_extension = "md".to_owned();
    assert_eq!(metadata_file_path("out", "sub/dir", &config), "out/sub/dir/test.md");
    assert_eq!(metadata_file_path("out", "", &config), "out/test.md");
}

#[test]
fn renames_only_the_file_stem() {
    assert_eq!(rename_file_name(Case::UpperSnake, "dir/someName.rs"), "dir/SOME_NAME.rs");
    assert_eq!(rename_file_name(Case::LowerKebab, "a_b"), "a-b");
    assert_eq!(rename_file_name(Case::UpperSnake, "dir/.."), "dir/..");
}

const CONFIGURED_HEADER: &str = "configured\nheader\n";
const CONFIGURED_HEADER_LINES: [&str; 2] = ["configured", "header"];

fn header_files() -> Vec<FileDescriptor> {
    vec![
        fake_file_with_package("root", "root"),
        fake_file_with_package("sub-file-0", "root.sub"),
        fake_file_with_package("sub-file-1", "root.sub"),
    ]
}

#[test]
fn default_in_file() {
    let config = RendererConfig::default();
    let paths = written_paths(&config, &header_files());
    assert_eq!(paths, vec!["out/root".to_string(), "out/sub-file-0".to_string(), "out/sub-file-1".to_string()]);
    assert_eq!(generated_header(&config), DEFAULT_GENERATED_HEADER);
}

#[test]
fn default_in_single_file_package() {
    let mut config = RendererConfig::default();
    config.one_file_per_package = true;
    let paths = written_paths(&config, &header_files());
    assert_eq!(paths, vec!["out/root".to_string(), "out/root-sub".to_string()]);
    assert_eq!(generated_header(&config), DEFAULT_GENERATED_HEADER);
}

#[test]
fn default_in_metadata() -> Result<(), Error> {
    let config = RendererConfig::default();
    assert!(has(&metadata_paths(&config, &header_files())?, "out/metadata"));
    assert_eq!(generated_header(&config), DEFAULT_GENERATED_HEADER);
    Ok(())
}

#[test]
fn configured_in_file() {
    let mut config = RendererConfig::default();
    config.generated_header = Some(CONFIGURED_HEADER_LINES.map(&str::to_owned).to_vec());
    assert_eq!(written_paths(&config, &header_files()).len(), 3);
    assert_eq!(generated_header(&config), CONFIGURED_HEADER);
}

#[test]
fn configured_in_single_file_package() {
    let mut config = RendererConfig::default();
    config.generated_header = Some(CONFIGURED_HEADER_LINES.map(&str::to_owned).to_vec());
    config.one_file_per_package = true;
    assert_eq!(written_paths(&config, &header_files()), vec!["out/root".to_string(), "out/root-sub".to_string()]);
    assert_eq!(generated_header(&config), CONFIGURED_HEADER);
}

#[test]
fn configured_in_metadata() -> Result<(), Error> {
    let mut config = RendererConfig::default();
    config.generated_header = Some(CONFIGURED_HEADER_LINES.map(&str::to_owned).to_vec());
    assert!(has(&metadata_paths(&config, &header_files())?, "out/metadata"));
    assert_eq!(generated_header(&config), CONFIGURED_HEADER);
    Ok(())
}

#[test]
fn configured_empty_prints_empty() {
    let mut config = RendererConfig::default();
    config.generated_header = Some(Vec::new());
    assert_eq!(generated_header(&config), "");
}

#[test]
fn package_metadata_lists_package_files() {
    let mut config = RendererConfig::default();
    config.one_file_per_package = true;
    config.file_extension = "rs".to_owned();
    let outputs = plan_package_outputs(&config, &header_files(), OUT);
    assert_eq!(outputs[1].relative_path, "root_sub.rs");
    assert_eq!(outputs[1].files, vec![1, 2]);
    let context = package_metadata(&outputs);
    let full: Vec<(String, String)> = context
        .package_files_full()
        .iter()
        .map(|p| (p.package().to_string(), p.file_name().to_string()))
        .collect();
    assert_eq!(full, vec![("root".to_string(), "root.rs".to_string()), ("root.sub".to_string(), "root_sub.rs".to_string())]);
    let root = context.package_file_tree().get("root").expect("root node");
    assert_eq!(root.file_name().map(String::as_str), Some("root.rs"));
    assert_eq!(root.children().get("sub").and_then(|n| n.file_name()).map(String::as_str), Some("root_sub.rs"));
}

#[test]
fn metadata_contexts_list_children() -> Result<(), Error> {
    let contexts = metadata_for_directories(&test_file_set())?;
    let test = contexts.iter().find(|c| c.directory() == "test").expect("test dir");
    assert_eq!(test.file_names(), &vec!["file2".to_string(), "file3".to_string()]);
    assert_eq!(test.subdirectories(), &vec!["sub".to_string()]);
    let root = contexts.iter().find(|c| c.directory() == "").expect("root dir");
    assert_eq!(root.file_names(), &vec!["file1".to_string()]);
    Ok(())
}
