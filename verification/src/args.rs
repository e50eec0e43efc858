//! The values a front end hands the engine: which resources to use, how many
//! slots to fill, and which edit to make. A command-line or graphical front
//! end fills these from whatever it parses and converts to them; the engine
//! side stays free of any parsing.

use vstd::prelude::*;

verus! {

/// The two resource names a run works against; either may be left out to let
/// the front end fall back to its default.
#[derive(Debug, Clone)]
pub struct FileArgs {
    pub input_file: Option<String>,
    pub output_file: Option<String>,
}

impl FileArgs {
    /// The pair of resource names, taken as given.
    pub fn new(input_file: Option<String>, output_file: Option<String>) -> (r: Self)
        ensures
            r.input_file == input_file,
            r.output_file == output_file,
    {
        FileArgs { input_file, output_file }
    }

    /// The input resource name, if one was given.
    pub fn input_file(&self) -> (r: Option<String>)
        ensures
            r == self.input_file,
    {
        match &self.input_file {
            Some(s) => Some(s.clone()),
            None => None,
        }
    }

    /// The output resource name, if one was given.
    pub fn output_file(&self) -> (r: Option<String>)
        ensures
            r == self.output_file,
    {
        match &self.output_file {
            Some(s) => Some(s.clone()),
            None => None,
        }
    }
}

/// What a show request names: the output resource to display.
#[derive(Debug)]
pub struct ShowArgs {
    pub output_path: String,
}

impl ShowArgs {
    /// A show request for the given output resource.
    pub fn new(output_path: String) -> (r: Self)
        ensures
            r.output_path == output_path,
    {
        ShowArgs { output_path }
    }

    /// The output resource to display.
    pub fn output_path(&self) -> (r: &str)
        ensures
            r@ == self.output_path@,
    {
        self.output_path.as_str()
    }
}

/// What a generate request carries: the resources, the number of slots to
/// fill, and whether to discard the persisted selection first.
#[derive(Debug)]
pub struct GenerateArgs {
    pub file_args: FileArgs,
    pub days: Option<usize>,
    pub reset: bool,
}

impl GenerateArgs {
    /// A generate request, taken as given.
    pub fn new(file_args: FileArgs, days: Option<usize>, reset: bool) -> (r: Self)
        ensures
            r.file_args == file_args,
            r.days == days,
            r.reset == reset,
    {
        GenerateArgs { file_args, days, reset }
    }

    /// The resource names of this request.
    pub fn file_args(&self) -> (r: &FileArgs)
        ensures
            r == self.file_args,
    {
        &self.file_args
    }

    /// The requested slot count, if one was given.
    pub fn days(&self) -> (r: Option<usize>)
        ensures
            r == self.days,
    {
        self.days
    }

    /// Whether to discard the persisted selection and start anew.
    pub fn reset(&self) -> (r: bool)
        ensures
            r == self.reset,
    {
        self.reset
    }
}

/// Which edit a front end asks for.
#[derive(Clone, Copy, Debug, PartialEq, Eq, Structural)]
pub enum EditType {
    AddToInput,
    RemoveFromInput,
    InputEntry,
    Entry,
    RegenEntry,
    SwapEntry,
}

/// What an edit request carries: the resources, the kind of edit, and the
/// entry values the edit works on.
#[derive(Debug)]
pub struct EditArgs {
    pub file_args: FileArgs,
    pub edit_field: EditType,
    pub entry: Option<Vec<String>>,
}

impl EditArgs {
    /// An edit request, taken as given.
    pub fn new(file_args: FileArgs, edit_field: EditType, entry: Option<Vec<String>>) -> (r: Self)
        ensures
            r.file_args == file_args,
            r.edit_field == edit_field,
            r.entry == entry,
    {
        EditArgs { file_args, edit_field, entry }
    }

    /// The resource names of this request.
    pub fn file_args(&self) -> (r: &FileArgs)
        ensures
            r == self.file_args,
    {
        &self.file_args
    }

    /// The kind of edit asked for.
    pub fn edit_field(&self) -> (r: &EditType)
        ensures
            r == self.edit_field,
    {
        &self.edit_field
    }

    /// The entry values the edit works on, if any were given.
    pub fn entry(&self) -> (r: Option<&Vec<String>>)
        ensures
            (match r {
                Some(v) => self.entry is Some && v == self.entry->0,
                None => self.entry is None,
            }),
    {
        match &self.entry {
            Some(v) => Some(v),
            None => None,
        }
    }
}

/// The requests a front end can make of the engine.
#[derive(Debug)]
pub enum Command {
    Show(ShowArgs),
    Edit(EditArgs),
    Shuffle(FileArgs),
    Generate(GenerateArgs),
}

} // verus!
