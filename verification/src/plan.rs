//! What the host-side driver is asked to do: the steps of a plan, which it
//! carries out in order.

use vstd::prelude::*;
use vstd::string::*;

use crate::util::{Command, CommandView};

verus! {

/// One step of a plan.
#[derive(Debug, Clone)]
pub enum Step {
    /// Make sure the assets are there: all of them, or the binaries only.
    Bootstrap { full: bool },
    /// Create the directory and those above it.
    CreateDir(String),
    /// Copy the first file to the second.
    CopyFile(String, String),
    /// Write the text to the file.
    WriteFile(String, String),
    /// Remove the file; that it is not there is no failure.
    RemoveFile(String),
    /// Remove the directory with all that is in it.
    RemoveDir(String),
    /// Make the file executable by all and writable by its owner.
    MakeExecutable(String),
    /// Run the command; it must succeed.
    Run(Command),
    /// Run the command without showing its output; it must succeed.
    RunQuiet(Command),
    /// Set up the host side of the network for the TAP device and the subnet.
    SetupNetworking(String, String),
    /// Take down the host side of the network of the VM.
    CleanupNetworking(String),
    /// End the process of the VM.
    Stop(String),
    /// Start the VM.
    Start(String),
    /// Wait for so many milliseconds.
    Sleep(u64),
    /// Download what is at the URL to the file.
    Download(String, String),
    /// Take the entry of that file name out of the gzipped archive, write it
    /// to the file, and make the file executable.
    Extract { archive: String, entry: String, dest: String },
    /// Make sure the program is there, installing the package if it is not.
    EnsureDependency(String, String),
    /// Link the second path to the first.
    Symlink(String, String),
}

/// A step as the contracts see it.
pub enum StepView {
    /// Make sure the assets are there.
    Bootstrap { full: bool },
    /// Create the directory and those above it.
    CreateDir(Seq<char>),
    /// Copy the first file to the second.
    CopyFile(Seq<char>, Seq<char>),
    /// Write the text to the file.
    WriteFile(Seq<char>, Seq<char>),
    /// Remove the file.
    RemoveFile(Seq<char>),
    /// Remove the directory with all that is in it.
    RemoveDir(Seq<char>),
    /// Make the file executable.
    MakeExecutable(Seq<char>),
    /// Run the command; it must succeed.
    Run(CommandView),
    /// Run the command without showing its output; it must succeed.
    RunQuiet(CommandView),
    /// Set up the host side of the network.
    SetupNetworking(Seq<char>, Seq<char>),
    /// Take down the host side of the network of the VM.
    CleanupNetworking(Seq<char>),
    /// End the process of the VM.
    Stop(Seq<char>),
    /// Start the VM.
    Start(Seq<char>),
    /// Wait for so many milliseconds.
    Sleep(u64),
    /// Download what is at the URL to the file.
    Download(Seq<char>, Seq<char>),
    /// Take an entry out of a gzipped archive.
    Extract { archive: Seq<char>, entry: Seq<char>, dest: Seq<char> },
    /// Make sure the program is there, installing the package if it is not.
    EnsureDependency(Seq<char>, Seq<char>),
    /// Link the second path to the first.
    Symlink(Seq<char>, Seq<char>),
}

impl View for Step {
    type V = StepView;

    open spec fn view(&self) -> StepView {
        match *self {
            Step::Bootstrap { full } => StepView::Bootstrap { full },
            Step::CreateDir(p) => StepView::CreateDir(p@),
            Step::CopyFile(a, b) => StepView::CopyFile(a@, b@),
            Step::WriteFile(p, t) => StepView::WriteFile(p@, t@),
            Step::RemoveFile(p) => StepView::RemoveFile(p@),
            Step::RemoveDir(p) => StepView::RemoveDir(p@),
            Step::MakeExecutable(p) => StepView::MakeExecutable(p@),
            Step::Run(c) => StepView::Run(c@),
            Step::RunQuiet(c) => StepView::RunQuiet(c@),
            Step::SetupNetworking(t, s) => StepView::SetupNetworking(t@, s@),
            Step::CleanupNetworking(n) => StepView::CleanupNetworking(n@),
            Step::Stop(n) => StepView::Stop(n@),
            Step::Start(n) => StepView::Start(n@),
            Step::Sleep(ms) => StepView::Sleep(ms),
            Step::Download(u, d) => StepView::Download(u@, d@),
            Step::Extract { archive, entry, dest } => StepView::Extract {
                archive: archive@,
                entry: entry@,
                dest: dest@,
            },
            Step::EnsureDependency(p, k) => StepView::EnsureDependency(p@, k@),
            Step::Symlink(a, b) => StepView::Symlink(a@, b@),
        }
    }
}

/// The steps of `v` as the contracts see them.
pub open spec fn steps(v: Seq<Step>) -> Seq<StepView> {
    v.map_values(|s: Step| s@)
}

/// The empty plan, to which `push` adds.
pub open spec fn plan() -> Seq<StepView> {
    Seq::empty()
}

/// An empty plan.
pub fn no_steps() -> (v: Vec<Step>)
    ensures
        steps(v@) == plan(),
{
    let v: Vec<Step> = Vec::new();
    assert(steps(v@) =~= plan());
    v
}

/// Appends `s` to `v`.
pub fn push_step(v: &mut Vec<Step>, s: Step)
    ensures
        steps(final(v)@) == steps(old(v)@).push(s@),
        final(v).len() == old(v).len() + 1,
{
    v.push(s);
    assert(steps(v@) =~= steps(old(v)@).push(s@));
}

/// The step that creates the directory `path`.
pub fn create_dir(path: &str) -> (s: Step)
    ensures
        s@ == StepView::CreateDir(path@),
{
    Step::CreateDir(String::from_str(path))
}

/// The step that copies the file `from` to `to`.
pub fn copy_file(from: &str, to: &str) -> (s: Step)
    ensures
        s@ == StepView::CopyFile(from@, to@),
{
    Step::CopyFile(String::from_str(from), String::from_str(to))
}

/// The step that writes `text` to the file `path`.
pub fn write_file(path: &str, text: &str) -> (s: Step)
    ensures
        s@ == StepView::WriteFile(path@, text@),
{
    Step::WriteFile(String::from_str(path), String::from_str(text))
}

/// The step that removes the file `path`.
pub fn remove_file(path: &str) -> (s: Step)
    ensures
        s@ == StepView::RemoveFile(path@),
{
    Step::RemoveFile(String::from_str(path))
}

/// The step that makes the file `path` executable.
pub fn make_executable(path: &str) -> (s: Step)
    ensures
        s@ == StepView::MakeExecutable(path@),
{
    Step::MakeExecutable(String::from_str(path))
}

/// The step that downloads what is at `url` to the file `dest`.
pub fn download(url: &str, dest: &str) -> (s: Step)
    ensures
        s@ == StepView::Download(url@, dest@),
{
    Step::Download(String::from_str(url), String::from_str(dest))
}

/// The step that makes sure of `program`, which the package `package` brings.
pub fn ensure_tool(program: &str, package: &str) -> (s: Step)
    ensures
        s@ == StepView::EnsureDependency(program@, package@),
{
    Step::EnsureDependency(String::from_str(program), String::from_str(package))
}

} // verus!
