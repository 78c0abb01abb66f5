//! Starting at login: the entry under the user's `Run` key.
use vstd::prelude::*;

verus! {

/// The key whose values are started at login.
pub const RUN_KEY: &'static str = "Software\\Microsoft\\Windows\\CurrentVersion\\Run";

/// The name of the entry.
pub const VALUE: &'static str = "glassbar";

/// A path as one word of a command line.
pub open spec fn quoted(path: Seq<char>) -> Seq<char> {
    seq!['"'] + path + seq!['"']
}

/// The program that a command line starts: a quoted word up to its closing quote, else everything
/// up to the first space.
pub open spec fn program(line: Seq<char>) -> Seq<char> {
    if line.len() > 0 && line[0] == '"' {
        up_to(line.skip(1), '"')
    } else {
        up_to(line, ' ')
    }
}

/// The part of a text before the first `c`.
pub open spec fn up_to(s: Seq<char>, c: char) -> Seq<char>
    decreases s.len(),
{
    if s.len() == 0 || s[0] == c {
        Seq::empty()
    } else {
        seq![s[0]] + up_to(s.skip(1), c)
    }
}

/// The entry after starting at login was enabled: this executable's command line, whatever the
/// entry was before.
pub open spec fn after_enable(entry: Option<Seq<char>>, path: Seq<char>) -> Option<Seq<char>> {
    Some(quoted(path))
}

/// The entry after starting at login was disabled.
pub open spec fn after_disable(entry: Option<Seq<char>>) -> Option<Seq<char>> {
    None
}

/// Starting at login is enabled: there is an entry.
pub open spec fn enabled(entry: Option<Seq<char>>) -> bool {
    entry is Some
}

/// The text of an entry.
pub open spec fn entry_view(entry: Option<String>) -> Option<Seq<char>> {
    match entry {
        Some(line) => Some(line@),
        None => None,
    }
}

/// Enables starting at login. The entry is always written anew, so that one that was left behind
/// by a binary at another place is repaired.
pub fn enable(entry: &mut Option<String>, path: &str)
    ensures
        entry_view(*final(entry)) == after_enable(entry_view(*old(entry)), path@),
{
    *entry = Some(quoted_exe(path));
}

/// Disables starting at login.
pub fn disable(entry: &mut Option<String>)
    ensures
        entry_view(*final(entry)) == after_disable(entry_view(*old(entry))),
{
    *entry = None;
}

/// Whether starting at login is enabled.
pub fn is_enabled(entry: &Option<String>) -> (r: bool)
    ensures
        r == enabled(entry_view(*entry)),
{
    entry.is_some()
}

/// Enabling repairs whatever entry there was: it is on, and starts the executable at `path`. Doing
/// it twice is doing it once. (No path holds a quote.)
pub proof fn enabling_repairs_the_entry(entry: Option<Seq<char>>, path: Seq<char>)
    ensures
        enabled(after_enable(entry, path)),
        !path.contains('"') ==> program(after_enable(entry, path)->0) == path,
        after_enable(after_enable(entry, path), path) == after_enable(entry, path),
{
    if !path.contains('"') {
        quoted_path_is_the_program(path);
    }
}

/// Disabling turns it off, whether it was on or not; what comes last decides.
pub proof fn disabling_undoes_enabling(entry: Option<Seq<char>>, path: Seq<char>)
    ensures
        !enabled(after_disable(entry)),
        after_disable(after_enable(entry, path)) == after_disable(entry),
        after_enable(after_disable(entry), path) == after_enable(entry, path),
{
}

/// Quotes the path of the executable. The entry is read as a command line, and without the quotes
/// a path would end at its first space.
pub fn quoted_exe(path: &str) -> (line: String)
    ensures
        line@ == quoted(path@),
{
    proof {
        reveal_strlit("\"");
        assert("\""@ =~= seq!['"']);
    }
    let mut line = "\"".to_owned();
    line.append(path);
    line.append("\"");
    line
}

/// The entry starts the executable, wherever it lies: a quoted path is the whole program, spaces
/// or not. (No path holds a quote.)
pub proof fn quoted_path_is_the_program(path: Seq<char>)
    requires
        !path.contains('"'),
    ensures
        program(quoted(path)) == path,
{
    let line = quoted(path);
    assert(line[0] == '"');
    assert(line.skip(1) =~= path + seq!['"']);
    lemma_up_to_quote(path);
}

proof fn lemma_up_to_quote(path: Seq<char>)
    requires
        !path.contains('"'),
    ensures
        up_to(path + seq!['"'], '"') == path,
    decreases path.len(),
{
    let s = path + seq!['"'];
    if path.len() > 0 {
        assert(path.contains(path[0]));
        let rest = path.skip(1);
        assert(!rest.contains('"')) by {
            if rest.contains('"') {
                let i = choose|i: int| 0 <= i < rest.len() && rest[i] == '"';
                assert(path[i + 1] == '"');
            }
        }
        assert(s.skip(1) =~= rest + seq!['"']);
        lemma_up_to_quote(rest);
        assert(seq![path[0]] + rest =~= path);
    }
}

/// A quoted path is the path, as it is, between two quotation marks.
pub proof fn quotes_stand_around_the_path(path: Seq<char>)
    ensures
        quoted(path).len() == path.len() + 2,
        quoted(path)[0] == '"',
        quoted(path).subrange(1, 1 + path.len() as int) == path,
        quoted(path).last() == '"',
{
    assert(quoted(path).subrange(1, 1 + path.len() as int) =~= path);
}

/// What is written is the quoted path, whatever there was; what is disabled leaves no entry; and
/// any entry at all, with whatever text, is one that is on.
pub proof fn any_entry_is_on(entry: Option<Seq<char>>, path: Seq<char>, line: Seq<char>)
    ensures
        after_enable(entry, path) is Some,
        after_enable(entry, path)->0.len() == path.len() + 2,
        after_enable(entry, path)->0.subrange(1, 1 + path.len() as int) == path,
        after_disable(entry) is None,
        enabled(Some(line)),
        !enabled(None),
{
    quotes_stand_around_the_path(path);
}

/// An entry is seen as its text, and no entry as none.
pub proof fn entries_are_seen_as_they_are(entry: Option<String>)
    ensures
        entry_view(entry) is Some <==> entry is Some,
        entry is Some ==> entry_view(entry)->0 == entry->0@,
{
}

} // verus!
