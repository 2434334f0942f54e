//! Starting a new script or template directory: which files are written there, and
//! what they hold.
use vstd::prelude::*;
use crate::output::{unindent_text, unindented};
use crate::paths::{joined, join_path, path_with_extension, with_extension};

verus! {

/// The name of the renderer config file.
pub const CONFIG_FILE_NAME: &'static str = "config.json";
/// The extension of script files.
pub const SCRIPT_EXT: &'static str = "rhai";
/// The name of the main script, without extension.
pub const MAIN_SCRIPT_NAME: &'static str = "main";
/// The extension of template files.
pub const TEMPLATE_EXT: &'static str = "hbs";
/// The name of the file template, without extension.
pub const FILE_TEMPLATE_NAME: &'static str = "file";

/// The main script a new script directory starts with, before unindenting.
pub const MAIN_SCRIPT: &'static str = r#"
        // This is the root script file for most protox output.
        //
        // See the "builtin" and "examples" folders for usage examples:
        // https://github.com/nswarm/protox/tree/main/builtin
        // https://github.com/nswarm/protox/tree/main/examples
        //
        // See context data objects for information on what data is available:
        // https://github.com/nswarm/protox/tree/main/runner/src/renderer/context
        //
        // For more information on the scripting language rhai:
        // https://rhai.rs/book/

        // This function is the entrypoint that is called for each file protox expects to create.
        fn render_file(file, output) {
            // "file" is a FileContext from protox, usually related to a .proto file.
            // "output" is a protox object that makes it easy to construct an output file.

            // Add some stuff to the output...
            // Using "multiline" the leading indentation in code is ignored.
            output.multiline(`
                0
                    1
                        2
                    3
                4
            `);

            // Note the calling style of these two functions. The first has access to the parent scope,
            // the second does not.
            direct_fn!();
            output.line(indirect_fn(file.name));

            // Don't for get to return the output to protox!
            // The last line without a ; is returned.
            output
        }

        fn direct_fn() {
            // Add to existing output from parent scope.
            output.append(`Hello ${file.name}`);
        }

        // This function just returns a string which we can append outside.
        fn indirect_fn() {
            `Bye!`
        }
        "#;

/// The file template a new template directory starts with, before unindenting.
pub const FILE_TEMPLATE: &'static str = r#"
        {{!
        This is the root template file for most protox output.

        See the "builtin" and "examples" folders for usage examples:
        https://github.com/nswarm/protox/tree/main/builtin
        https://github.com/nswarm/protox/tree/main/examples

        See context data objects for information on what data is available:
        https://github.com/nswarm/protox/tree/main/runner/src/renderer/context

        For more information on Handlebars: https://handlebarsjs.com/guide/
        }}"#;

/// What a file written into a new directory holds.
pub enum InitContent {
    /// The default renderer config, as JSON.
    DefaultConfig,
    /// The given text.
    Text(String),
}

/// A file written into a new directory.
pub struct InitFile {
    pub path: String,
    pub content: InitContent,
}

/// The files a new script directory `dir` starts with: the default config, then the
/// main script. The directory is to be created, and must be empty.
pub fn initialize_script_dir(dir: &str) -> (r: Vec<InitFile>)
    ensures
        r@.len() == 2,
        r@[0].path@ == joined(dir@, CONFIG_FILE_NAME@),
        r@[0].content is DefaultConfig,
        r@[1].path@ == with_extension(joined(dir@, MAIN_SCRIPT_NAME@), SCRIPT_EXT@),
        r@[1].content matches InitContent::Text(t) && t@ == unindented(MAIN_SCRIPT@),
{
    let mut files: Vec<InitFile> = Vec::new();
    files.push(InitFile { path: join_path(dir, CONFIG_FILE_NAME), content: InitContent::DefaultConfig });
    let script = path_with_extension(join_path(dir, MAIN_SCRIPT_NAME).as_str(), SCRIPT_EXT);
    files.push(InitFile { path: script, content: InitContent::Text(unindent_text(MAIN_SCRIPT)) });
    files
}

/// The files a new template directory `dir` starts with: the default config, then the
/// file template. The directory is to be created, and must be empty.
pub fn initialize_template_dir(dir: &str) -> (r: Vec<InitFile>)
    ensures
        r@.len() == 2,
        r@[0].path@ == joined(dir@, CONFIG_FILE_NAME@),
        r@[0].content is DefaultConfig,
        r@[1].path@ == with_extension(joined(dir@, FILE_TEMPLATE_NAME@), TEMPLATE_EXT@),
        r@[1].content matches InitContent::Text(t) && t@ == unindented(FILE_TEMPLATE@),
{
    let mut files: Vec<InitFile> = Vec::new();
    files.push(InitFile { path: join_path(dir, CONFIG_FILE_NAME), content: InitContent::DefaultConfig });
    let template = path_with_extension(join_path(dir, FILE_TEMPLATE_NAME).as_str(), TEMPLATE_EXT);
    files.push(InitFile { path: template, content: InitContent::Text(unindent_text(FILE_TEMPLATE)) });
    files
}

} // verus!
