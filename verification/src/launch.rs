//! What the command line asks for.

use std::path::Path;
use vstd::prelude::*;

use crate::text::optional_text;
use crate::text::same_text;

verus! {

/// What the task runner is asked to do.
#[derive(Clone, Copy, Debug, PartialEq, Eq, Structural)]
pub enum Command {
    FetchPdfium,
    /// Nothing that it knows: it says how it is used.
    Usage,
}

/// The command that the first argument names.
pub fn parse_command(argument: Option<&str>) -> (command: Command)
    ensures
        command == Command::FetchPdfium <==> (argument matches Some(text) && text@
            == "fetch-pdfium"@),
{
    match argument {
        Some(text) => if same_text(text, "fetch-pdfium") {
            Command::FetchPdfium
        } else {
            Command::Usage
        },
        None => Command::Usage,
    }
}

/// How the task runner is used.
pub fn usage() -> (text: &'static str)
    ensures
        text@ == "usage: cargo xtask fetch-pdfium"@,
{
    "usage: cargo xtask fetch-pdfium"
}

/// The document to open: the one that the first argument names, or the example.
pub fn document_path(argument: Option<String>) -> (path: String)
    ensures
        path@ == match argument {
            Some(named) => named@,
            None => "example.pdf"@,
        },
{
    match argument {
        Some(named) => named,
        None => "example.pdf".to_owned(),
    }
}

/// What stands behind the last slash of a path, or the whole path where there is none.
pub open spec fn last_piece(path: Seq<char>) -> Seq<char>
    decreases path.len(),
{
    if path.len() == 0 || path.last() == '/' {
        Seq::empty()
    } else {
        last_piece(path.drop_last()).push(path.last())
    }
}

/// Whether both Unix and Windows take the path apart at its slashes and nowhere else. Windows also
/// does so at backslashes, and sets a drive letter with its colon, or two slashes with the name of
/// a server, apart from what follows.
pub open spec fn is_plain_path(path: Seq<char>) -> bool {
    &&& !path.contains('\\')
    &&& !(path.len() >= 2 && path[1] == ':')
    &&& !(path.len() >= 2 && path[0] == '/' && path[1] == '/')
}

/// Whether `part` is a piece of `whole`, in one run and not empty.
pub open spec fn is_part_of(part: Seq<char>, whole: Seq<char>) -> bool {
    exists|i: int, j: int|
        0 <= i < j <= whole.len() && part == #[trigger] whole.subrange(i, j)
}

/// The final component of a path that is taken apart at its slashes. Slashes at the end and
/// components that are a single dot do not count. There is none where nothing is left, or where
/// two dots lead to the directory above.
pub open spec fn last_component(path: Seq<char>) -> Option<Seq<char>>
    decreases path.len(),
{
    if path.len() == 0 {
        None
    } else if path.last() == '/' || last_piece(path) == seq!['.'] {
        last_component(path.drop_last())
    } else if last_piece(path) == seq!['.', '.'] {
        None
    } else {
        Some(last_piece(path))
    }
}

/// Whether the character is a separator on Windows.
pub open spec fn is_separator(c: char) -> bool {
    c == '/' || c == '\\'
}

/// Whether the character can name a drive.
pub open spec fn is_letter(c: char) -> bool {
    'a' <= c <= 'z' || 'A' <= c <= 'Z'
}

/// Whether the path begins with neither the name of a server nor a colon that names no drive:
/// not with two separators, and with a colon in second place only after a letter.
pub open spec fn has_common_start(path: Seq<char>) -> bool {
    &&& !(path.len() >= 2 && is_separator(path[0]) && is_separator(path[1]))
    &&& path.len() >= 2 && path[1] == ':' ==> is_letter(path[0])
}

/// The path as Windows reads it: without its drive, and with slashes for separators.
pub open spec fn windows_form(path: Seq<char>) -> Seq<char> {
    let rest = if path.len() >= 2 && path[1] == ':' {
        path.skip(2)
    } else {
        path
    };
    Seq::new(
        rest.len(),
        |i: int|
            if rest[i] == '\\' {
                '/'
            } else {
                rest[i]
            },
    )
}

/// `Path::file_name` of std: the final component of a path, if there is one, and none where the
/// path ends in `..`. The component is always a piece of the path. Unix takes a path apart at its
/// slashes; Windows does so at slashes and backslashes and sets a drive apart, and the contract
/// says that the component is what the one or the other finds. Of a path that begins with two
/// separators, or with a colon after something other than a letter, it leaves open which piece it
/// is.
#[verifier::external_body]
fn file_name(path: &str) -> (name: Option<String>)
    ensures
        has_common_start(path@) ==> optional_text(name) == last_component(path@)
            || optional_text(name) == last_component(windows_form(path@)),
        name matches Some(found) ==> is_part_of(found@, path@),
{
    match Path::new(path).file_name() {
        Some(name) => Some(name.to_string_lossy().into_owned()),
        None => None,
    }
}

/// The title for a document: its file name, or its path where it has no such name.
pub fn title_from(name: Option<String>, path: &str) -> (title: String)
    ensures
        title@ == title_for(optional_text(name), path@),
{
    match name {
        Some(text) => text,
        None => path.to_owned(),
    }
}

/// The title that a path has, given its final component.
pub open spec fn title_for(name: Option<Seq<char>>, path: Seq<char>) -> Seq<char> {
    match name {
        Some(text) => text,
        None => path,
    }
}

/// The title for the document at `path`: its file name, or the path where it has no such name.
/// The name is the one that this system finds, Unix or Windows; of a plain path both find the
/// same.
pub fn window_title(path: &str) -> (title: String)
    ensures
        is_plain_path(path@) ==> title@ == title_for(last_component(path@), path@),
        has_common_start(path@) ==> title@ == title_for(last_component(path@), path@) || title@
            == title_for(last_component(windows_form(path@)), path@),
        title@ == path@ || is_part_of(title@, path@),
{
    let name: Option<String> = file_name(path);
    proof {
        if is_plain_path(path@) {
            law_plain_path_reads_alike(path@);
        }
    }
    title_from(name, path)
}

/// Unix and Windows read a plain path alike.
pub proof fn law_plain_path_reads_alike(path: Seq<char>)
    requires
        is_plain_path(path),
    ensures
        has_common_start(path),
        windows_form(path) == path,
{
    assert forall|i: int| 0 <= i < path.len() implies path[i] != '\\' by {
        assert(path.contains(path[i]));
    }
    assert(windows_form(path) =~= path);
}

proof fn lemma_piece_behind_a_slash(directory: Seq<char>, name: Seq<char>)
    requires
        !name.contains('/'),
    ensures
        last_piece(directory + seq!['/'] + name) == name,
        last_piece(name) == name,
    decreases name.len(),
{
    let path = directory + seq!['/'] + name;
    if name.len() == 0 {
        assert(path.last() == '/');
        assert(last_piece(path) =~= name);
        assert(last_piece(name) =~= name);
    } else {
        let shorter = name.drop_last();
        assert(name.contains(name.last()));
        assert forall|i: int| 0 <= i < shorter.len() implies shorter[i] != '/' by {
            assert(name.contains(name[i]));
        }
        lemma_piece_behind_a_slash(directory, shorter);
        assert(path.drop_last() =~= directory + seq!['/'] + shorter);
        assert(path.last() == name.last());
        assert(last_piece(path) =~= name);
        assert(last_piece(name) =~= name);
    }
}

/// The final component of a file's path is the file's name, whatever directory it is in.
pub proof fn law_last_component_is_the_name(directory: Seq<char>, name: Seq<char>)
    requires
        name.len() > 0,
        !name.contains('/'),
        name != seq!['.'],
        name != seq!['.', '.'],
    ensures
        last_component(directory + seq!['/'] + name) == Some(name),
        last_component(name) == Some(name),
{
    lemma_piece_behind_a_slash(directory, name);
    let path = directory + seq!['/'] + name;
    assert(path.last() == name.last());
    assert(name.contains(name.last()));
}

/// Slashes and single dots at the end of a path change nothing of its final component; a path
/// that ends in two dots has none, and neither has an empty one.
pub proof fn law_last_component_skips_what_names_nothing(path: Seq<char>)
    ensures
        last_component(path + seq!['/']) == last_component(path),
        last_component(path + seq!['/', '.']) == last_component(path),
        last_component(path + seq!['/', '.', '.']) is None,
        last_component(Seq::<char>::empty()) is None,
        last_component(seq!['.']) is None,
        last_component(seq!['.', '.']) is None,
{
    let slashed = path + seq!['/'];
    assert(slashed.drop_last() =~= path);
    let dotted = path + seq!['/', '.'];
    assert(dotted =~= path + seq!['/'] + seq!['.']);
    lemma_piece_behind_a_slash(path, seq!['.']);
    assert(dotted.drop_last() =~= slashed);
    let up = path + seq!['/', '.', '.'];
    assert(up =~= path + seq!['/'] + seq!['.', '.']);
    lemma_piece_behind_a_slash(path, seq!['.', '.']);
    assert(seq!['.', '.'].len() == 2 && seq!['.'].len() == 1);
    assert(seq!['.'].drop_last() =~= Seq::<char>::empty());
}

/// Windows reads a path with its backslashes as slashes, and what follows a drive as it would
/// read it alone.
pub proof fn law_windows_reads_backslashes_as_slashes(path: Seq<char>, drive: char, i: int)
    requires
        path.len() < 2 || path[1] != ':',
    ensures
        windows_form(path).len() == path.len(),
        0 <= i < path.len() ==> windows_form(path)[i] == if path[i] == '\\' {
            '/'
        } else {
            path[i]
        },
        windows_form(seq![drive, ':'] + path) == windows_form(path),
{
    assert((seq![drive, ':'] + path).skip(2) =~= path);
}

/// Which paths both systems read alike, and which of them begin in a way that both know.
pub proof fn law_what_paths_begin_with(path: Seq<char>)
    ensures
        is_plain_path(path) <==> (forall|i: int| 0 <= i < path.len() ==> path[i] != '\\') && (
        path.len() < 2 || (path[1] != ':' && (path[0] != '/' || path[1] != '/'))),
        has_common_start(path) <==> path.len() < 2 || ((path[1] == ':' ==> 'a' <= path[0] <= 'z'
            || 'A' <= path[0] <= 'Z') && !((path[0] == '/' || path[0] == '\\') && (path[1] == '/'
            || path[1] == '\\'))),
{
    if path.contains('\\') {
        let i = choose|i: int| 0 <= i < path.len() && path[i] == '\\';
        assert(path[i] == '\\');
    } else {
        assert forall|i: int| 0 <= i < path.len() implies path[i] != '\\' by {
            assert(path.contains(path[i]));
        }
    }
}

/// The title is the name where there is one, and the path otherwise; so a document in a directory
/// is shown by its name alone.
pub proof fn law_title_is_the_name_or_the_path(
    directory: Seq<char>,
    name: Seq<char>,
    path: Seq<char>,
)
    ensures
        title_for(Some(name), path) == name,
        title_for(None, path) == path,
        name.len() > 0 && !name.contains('/') && name != seq!['.'] && name != seq!['.', '.']
            ==> title_for(
            last_component(directory + seq!['/'] + name),
            directory + seq!['/'] + name,
        ) == name,
{
    if name.len() > 0 && !name.contains('/') && name != seq!['.'] && name != seq!['.', '.'] {
        law_last_component_is_the_name(directory, name);
    }
}

} // verus!
