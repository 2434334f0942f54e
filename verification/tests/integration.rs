use protox::config::RendererConfig;
use protox::context::file::FileContext;
use protox::descriptor::{
    EnumDescriptor, EnumValueDescriptor, FieldDescriptor, FileDescriptor, MessageDescriptor, MessageOptions,
    LABEL_REPEATED,
};
use protox::error::Error;
use protox::metadata::MetadataContext;

fn default_file_proto() -> FileDescriptor {
    FileDescriptor { name: Some("name".to_owned()), ..Default::default() }
}

fn default_message_proto(name: &str) -> MessageDescriptor {
    MessageDescriptor { name: Some(name.to_owned()), ..Default::default() }
}

fn enum_proto() -> EnumDescriptor {
    EnumDescriptor {
        name: Some("EnumName".to_owned()),
        value: vec![EnumValueDescriptor { name: Some("EnumValueName".to_owned()), number: Some(123), options: None }],
        ..Default::default()
    }
}

fn file_with_imports(imports: &[&str]) -> Result<FileContext, Error> {
    let mut proto = default_file_proto();
    for import in imports {
        proto.dependency.push(import.to_string());
    }
    FileContext::new(&proto, &RendererConfig::default())
}

fn file_with_enums(enums: Vec<EnumDescriptor>) -> Result<FileContext, Error> {
    let mut proto = default_file_proto();
    proto.enum_type = enums;
    FileContext::new(&proto, &RendererConfig::default())
}

fn file_with_messages(messages: Vec<MessageDescriptor>) -> Result<FileContext, Error> {
    let mut proto = default_file_proto();
    proto.message_type = messages;
    FileContext::new(&proto, &RendererConfig::default())
}

#[test]
fn integration_tests_source_file() -> Result<(), Error> {
    let context = FileContext::new(&default_file_proto(), &RendererConfig::default())?;
    assert_eq!(context.source_file(), "name");
    Ok(())
}

#[test]
fn integration_tests_file_path() -> Result<(), Error> {
    let context = file_with_imports(&["relative/path/file.txt"])?;
    assert_eq!(context.imports()[0].file_path(), "relative/path/file.txt");
    Ok(())
}

#[test]
fn integration_tests_file_name() -> Result<(), Error> {
    let context = file_with_imports(&["relative/path/file.txt"])?;
    assert_eq!(context.imports()[0].file_name(), "file");
    Ok(())
}

#[test]
fn integration_tests_file_name_with_ext() -> Result<(), Error> {
    let context = file_with_imports(&["relative/path/file.txt"])?;
    assert_eq!(context.imports()[0].file_name_with_ext(), "file.txt");
    Ok(())
}

#[test]
fn enum_context_name() -> Result<(), Error> {
    let context = file_with_enums(vec![enum_proto()])?;
    assert_eq!(context.enums()[0].name(), "EnumName");
    Ok(())
}

#[test]
fn enum_value_context_name() -> Result<(), Error> {
    let context = file_with_enums(vec![enum_proto()])?;
    assert_eq!(context.enums()[0].values()[0].name(), "EnumValueName");
    Ok(())
}

#[test]
fn number() -> Result<(), Error> {
    let context = file_with_enums(vec![enum_proto()])?;
    assert_eq!(context.enums()[0].values()[0].number().to_string(), "123");
    Ok(())
}

#[test]
fn integration_tests_name() -> Result<(), Error> {
    let context = file_with_messages(vec![default_message_proto("SomeMessage")])?;
    assert_eq!(context.messages()[0].name(), "SomeMessage");
    Ok(())
}

fn field() -> FieldDescriptor {
    FieldDescriptor {
        name: Some("some_field".to_owned()),
        type_ref: Some(".package.SomeType".to_owned()),
        oneof_index: Some(0),
        ..Default::default()
    }
}

fn array_field() -> FieldDescriptor {
    FieldDescriptor {
        name: Some("some_field".to_owned()),
        type_ref: Some(".package.SomeType".to_owned()),
        label: Some(LABEL_REPEATED),
        ..Default::default()
    }
}

fn map_field() -> FieldDescriptor {
    FieldDescriptor {
        name: Some("some_field".to_owned()),
        type_ref: Some(".MapOwner.MapEntry".to_owned()),
        ..Default::default()
    }
}

fn message(fields: Vec<FieldDescriptor>) -> MessageDescriptor {
    let mut message = default_message_proto("SomeName");
    message.field = fields;
    message
}

fn map_message() -> MessageDescriptor {
    let mut message = default_message_proto("MapOwner");
    let mut map_entry = MessageDescriptor { name: Some("MapEntry".to_owned()), ..Default::default() };
    map_entry.options = Some(MessageOptions { map_entry: Some(true), ..Default::default() });
    map_entry.field.push(FieldDescriptor { name: Some("key".to_owned()), kind: Some(9), ..Default::default() });
    map_entry.field.push(FieldDescriptor { name: Some("value".to_owned()), kind: Some(5), ..Default::default() });
    message.nested_type.push(map_entry);
    message.field.push(map_field());
    message
}

fn field_context(field: FieldDescriptor) -> Result<FileContext, Error> {
    file_with_messages(vec![message(vec![field])])
}

#[test]
fn field_context_name() -> Result<(), Error> {
    let context = field_context(field())?;
    assert_eq!(context.messages()[0].fields()[0].name(), "some_field");
    Ok(())
}

#[test]
fn fully_qualified_type() -> Result<(), Error> {
    let context = field_context(field())?;
    assert_eq!(context.messages()[0].fields()[0].fully_qualified_type().map(String::as_str), Some("package.SomeType"));
    Ok(())
}

#[test]
fn relative_type() -> Result<(), Error> {
    let context = field_context(field())?;
    assert_eq!(context.messages()[0].fields()[0].relative_type().map(String::as_str), Some("package.SomeType"));
    Ok(())
}

#[test]
fn is_oneof() -> Result<(), Error> {
    let context = field_context(field())?;
    assert_eq!(context.messages()[0].fields()[0].is_oneof().to_string(), "true");
    Ok(())
}

#[test]
fn integration_tests_is_array() -> Result<(), Error> {
    let context = field_context(array_field())?;
    assert_eq!(context.messages()[0].fields()[0].is_array().to_string(), "true");
    Ok(())
}

fn map_context() -> Result<FileContext, Error> {
    file_with_messages(vec![map_message()])
}

#[test]
fn integration_tests_is_map() -> Result<(), Error> {
    let context = map_context()?;
    assert_eq!(context.messages()[0].fields()[0].is_map().to_string(), "true");
    Ok(())
}

#[test]
fn fully_qualified_key_type() -> Result<(), Error> {
    let context = map_context()?;
    assert_eq!(context.messages()[0].fields()[0].fully_qualified_key_type().map(String::as_str), Some("string"));
    Ok(())
}

#[test]
fn fully_qualified_value_type() -> Result<(), Error> {
    let context = map_context()?;
    assert_eq!(context.messages()[0].fields()[0].fully_qualified_value_type().map(String::as_str), Some("int32"));
    Ok(())
}

#[test]
fn relative_key_type() -> Result<(), Error> {
    let context = map_context()?;
    assert_eq!(context.messages()[0].fields()[0].relative_key_type().map(String::as_str), Some("string"));
    Ok(())
}

#[test]
fn relative_value_type() -> Result<(), Error> {
    let context = map_context()?;
    assert_eq!(context.messages()[0].fields()[0].relative_value_type().map(String::as_str), Some("int32"));
    Ok(())
}

#[test]
fn integration_tests_directory() {
    let context = MetadataContext::with_relative_dir("some/dir/path");
    assert_eq!(context.directory(), "some/dir/path");
}

#[test]
fn directory_path() {
    let context = MetadataContext::with_relative_dir("some/dir/path");
    assert_eq!(context.relative_dir(), "some/dir/path");
}

#[test]
fn file_names() -> Result<(), Error> {
    let mut context = MetadataContext::new();
    context.push_file("file0.ext")?;
    context.push_file("file1.ext")?;
    assert_eq!(context.file_names().concat(), "file0file1");
    Ok(())
}

#[test]
fn file_names_with_ext() -> Result<(), Error> {
    let mut context = MetadataContext::new();
    context.push_file("file0.ext")?;
    context.push_file("file1.ext")?;
    assert_eq!(context.file_names_with_ext().concat(), "file0.extfile1.ext");
    Ok(())
}

#[test]
fn integration_tests_subdirectories() -> Result<(), Error> {
    let mut context = MetadataContext::new();
    context.push_subdirectory("subdir0")?;
    context.push_subdirectory("subdir1")?;
    assert_eq!(context.subdirectories().concat(), "subdir0subdir1");
    Ok(())
}

#[test]
fn package_files_full() {
    let mut context = MetadataContext::new();
    context.append_package_files(vec![
        ("some.package.0".to_owned(), "some_file_0.ext".to_owned()),
        ("some.package.1".to_owned(), "some_file_1.ext".to_owned()),
    ]);
    let mut out = String::new();
    for pf in context.package_files_full() {
        out.push_str(pf.package());
        out.push_str(pf.file_name());
    }
    assert_eq!(out, "some.package.0some_file_0.extsome.package.1some_file_1.ext");
}

#[test]
fn package_file_tree() {
    let mut context = MetadataContext::new();
    context.append_package_files(vec![
        ("0.1.2".to_owned(), "file0".to_owned()),
        ("0.1".to_owned(), "file1".to_owned()),
        ("0.3".to_owned(), "file2".to_owned()),
    ]);
    fn print_children(children: &protox::metadata::PackageTree, output: &mut String) {
        let mut entries: Vec<&(String, protox::metadata::PackageTreeNode)> = children.entries().iter().collect();
        entries.sort_by(|a, b| a.0.cmp(&b.0));
        for (key, _) in &entries {
            output.push_str(&format!("[{}]", key));
        }
        let mut nodes: Vec<&protox::metadata::PackageTreeNode> = entries.iter().map(|e| &e.1).collect();
        nodes.sort_by(|a, b| a.file_name().cmp(&b.file_name()));
        for node in nodes {
            if let Some(f) = node.file_name() {
                output.push_str(f);
            }
            print_children(node.children(), output);
        }
    }
    let mut out = String::new();
    print_children(context.package_file_tree(), &mut out);
    assert_eq!(out, "[0][1][3]file1[2]file0file2");
}
