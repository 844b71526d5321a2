//! File dialogs and text file access: what each dialog asks for and how its
//! answer is reported.

use vstd::prelude::*;

verus! {

/// A named group of file extensions offered by a dialog.
#[derive(Debug, PartialEq)]
pub struct DialogFilter {
    pub name: String,
    pub extensions: Vec<String>,
}

/// The options of `open_file_dialog`.
#[derive(Debug, PartialEq)]
pub struct OpenDialogOptions {
    pub title: Option<String>,
    pub default_path: Option<String>,
    pub directory: Option<bool>,
    pub filters: Vec<DialogFilter>,
    pub multiple: Option<bool>,
}

/// The answer of `open_file_dialog`.
#[derive(Debug, PartialEq)]
pub struct OpenDialogResult {
    pub path: Option<String>,
    pub paths: Vec<String>,
}

/// The options of `save_file_dialog`.
#[derive(Debug, PartialEq)]
pub struct SaveDialogOptions {
    pub title: Option<String>,
    pub default_path: Option<String>,
    pub filters: Vec<DialogFilter>,
}

/// What an open dialog picks.
#[derive(Debug, PartialEq)]
pub enum PickMode {
    /// A folder.
    Folder,
    /// One or more files, of which the first is reported.
    Files,
    /// One file.
    File,
}

/// The open dialog to show.
#[derive(Debug, PartialEq)]
pub struct OpenDialogPlan {
    pub mode: PickMode,
    pub title: String,
    /// The directory the dialog starts in.
    pub start_directory: Option<String>,
}

pub open spec fn title_or(title: Option<String>, default: Seq<char>) -> Seq<char> {
    match title {
        Some(t) => t@,
        None => default,
    }
}

/// `open_file_dialog`: a folder picker when `directory` is set, else a
/// multi-file picker when `multiple` is set, else a single-file picker; titled
/// `Open` unless a title is given, starting in `default_path` when given.
/// Filters are not applied.
pub fn open_file_dialog(options: OpenDialogOptions) -> (r: OpenDialogPlan)
    ensures
        r.mode == (if options.directory == Some(true) {
            PickMode::Folder
        } else if options.multiple == Some(true) {
            PickMode::Files
        } else {
            PickMode::File
        }),
        r.title@ == title_or(options.title, "Open"@),
        r.start_directory == options.default_path,
{
    let directory = match options.directory {
        Some(b) => b,
        None => false,
    };
    let multiple = match options.multiple {
        Some(b) => b,
        None => false,
    };
    let mode = if directory {
        PickMode::Folder
    } else if multiple {
        PickMode::Files
    } else {
        PickMode::File
    };
    let title = match options.title {
        Some(t) => t,
        None => "Open".to_owned(),
    };
    OpenDialogPlan { mode, title, start_directory: options.default_path }
}

/// Reports the path an open dialog picked, both as `path` and as the only
/// element of `paths`; nothing picked gives no path and no paths.
pub fn open_dialog_result(picked: Option<String>) -> (r: OpenDialogResult)
    ensures
        r.path == picked,
        r.paths@ == (match picked {
            Some(p) => seq![p],
            None => Seq::<String>::empty(),
        }),
{
    let mut paths: Vec<String> = Vec::new();
    match &picked {
        Some(p) => {
            paths.push(p.clone());
        },
        None => {},
    }
    assert(paths@ =~= (match picked {
        Some(p) => seq![p],
        None => Seq::<String>::empty(),
    }));
    OpenDialogResult { path: picked, paths }
}

/// The save dialog to show.
#[derive(Debug, PartialEq)]
pub struct SaveDialogPlan {
    pub title: String,
    /// The file name the dialog proposes.
    pub file_name: Option<String>,
}

/// `save_file_dialog`: titled `Save` unless a title is given, proposing
/// `default_path` as the file name when given. Filters are not applied.
pub fn save_file_dialog(options: SaveDialogOptions) -> (r: SaveDialogPlan)
    ensures
        r.title@ == title_or(options.title, "Save"@),
        r.file_name == options.default_path,
{
    let title = match options.title {
        Some(t) => t,
        None => "Save".to_owned(),
    };
    SaveDialogPlan { title, file_name: options.default_path }
}

/// The error of `read_text_file`: `read_text_file(<path>): <cause>`.
pub fn read_text_file_error(path: &str, cause: &str) -> (r: String)
    ensures
        r@ == "read_text_file("@ + path@ + "): "@ + cause@,
{
    "read_text_file(".to_owned().concat(path).concat("): ").concat(cause)
}

/// The error of `write_text_file`: `write_text_file(<path>): <cause>`.
pub fn write_text_file_error(path: &str, cause: &str) -> (r: String)
    ensures
        r@ == "write_text_file("@ + path@ + "): "@ + cause@,
{
    "write_text_file(".to_owned().concat(path).concat("): ").concat(cause)
}

} // verus!
