//! What holds of the search for the desktop.

use crate::discovery;
use crate::discovery::{Source, Variable};
use crate::text;
use crate::text_laws;
use vstd::prelude::*;

verus! {

/// Whether a socket may be found at a source.
pub open spec fn offers(source: Source, named: bool, in_process: bool, in_systemd: bool) -> bool {
    match source {
        Source::CommandLine => named,
        Source::ProcessEnvironment => in_process,
        Source::SystemdEnvironment => in_systemd,
        Source::RuntimeScan => true,
    }
}

/// The search begins at the first source that offers a socket, in the order of the command line,
/// the process, the systemd user manager and the runtime directory. After a failure it goes on at
/// the next one that does, except that a socket on the command line must answer.
pub proof fn lemma_search_order(
    named: bool,
    in_process: bool,
    in_systemd: bool,
    failed: Source,
    passed: Source,
)
    ensures
        ({
            let first = discovery::first_place(named, in_process, in_systemd);
            &&& offers(first, named, in_process, in_systemd)
            &&& discovery::rank(passed) < discovery::rank(first) ==> !offers(
                passed,
                named,
                in_process,
                in_systemd,
            )
        }),
        failed is CommandLine || failed is RuntimeScan <==> discovery::next_place(
            failed,
            in_systemd,
        ) is None,
        discovery::next_place(failed, in_systemd) matches Some(next) ==> {
            &&& offers(next, named, in_process, in_systemd)
            &&& discovery::rank(failed) < discovery::rank(passed) < discovery::rank(next)
                ==> !offers(passed, named, in_process, in_systemd)
        },
{
}

proof fn lemma_place_prefix(variables: Seq<Variable>, more: Variable, key: Seq<char>, count: int)
    requires
        0 <= count <= variables.len(),
    ensures
        discovery::place_of(variables.push(more), key, count) == discovery::place_of(
            variables,
            key,
            count,
        ),
        discovery::place_of(variables, key, count) matches Some(at) ==> 0 <= at < count,
    decreases count,
{
    if count > 0 {
        lemma_place_prefix(variables, more, key, count - 1);
    }
}

/// A variable that is set again has its new value. The others keep theirs.
pub proof fn lemma_last_value_counts(variables: Seq<Variable>, more: Variable, key: Seq<char>)
    ensures
        key == more.key@ ==> discovery::lookup(variables.push(more), key) == Some(more),
        key != more.key@ ==> discovery::lookup(variables.push(more), key) == discovery::lookup(
            variables,
            key,
        ),
        discovery::lookup(Seq::<Variable>::empty(), key) is None,
{
    lemma_place_prefix(variables, more, key, variables.len() as int);
    assert(variables.push(more).last() == more);
}

/// The runtime directory and the display are those of the process where it names them, and else
/// those of the systemd user manager.
pub proof fn lemma_process_first(
    process: Seq<Variable>,
    systemd: Seq<Variable>,
    more: Variable,
    key: Seq<char>,
)
    ensures
        discovery::nearest(process.push(more), systemd, more.key@) == Some(more),
        discovery::nearest(process, systemd.push(more), more.key@) == if discovery::lookup(
            process,
            more.key@,
        ) is Some {
            discovery::lookup(process, more.key@)
        } else {
            Some(more)
        },
        discovery::nearest(Seq::<Variable>::empty(), Seq::<Variable>::empty(), key) is None,
{
    lemma_last_value_counts(process, more, more.key@);
    lemma_last_value_counts(systemd, more, more.key@);
    lemma_last_value_counts(process, more, key);
}

/// What the systemd user manager says of a variable of the session comes before what the process
/// says.
pub proof fn lemma_session_first(process: Seq<Variable>, systemd: Seq<Variable>, key: Seq<char>)
    ensures
        ({
            let value = discovery::session_value(process, systemd, key);
            let local = discovery::lookup(systemd, key);
            let own = discovery::lookup(process, key);
            &&& local is Some ==> value == Some(local->0.value@)
            &&& local is None && own is Some ==> value == Some(own->0.value@)
            &&& local is None && own is None ==> value is None
        }),
{
}

/// A line sets the variable before its first equals sign to what follows. A line without one sets
/// none.
pub proof fn lemma_assignment(key: Seq<char>, value: Seq<char>)
    requires
        forall|i: int| 0 <= i < key.len() ==> #[trigger] key[i] != '=',
    ensures
        discovery::assignment(key + seq!['='] + value) == Some((key, value)),
        discovery::assignment(key) is None,
{
    let line = key + seq!['='] + value;
    text_laws::lemma_first_index(line, '=');
    text_laws::lemma_first_index(key, '=');
    assert(line[key.len() as int] == '=');
    let at = text::first_index(line, '=')->0;
    if at < key.len() {
        assert(line[at] == key[at]);
    }
    assert(line.take(at) =~= key);
    assert(line.skip(at + 1) =~= value);
}

/// The name of a socket that is made of a display and a process number gives the display back.
pub proof fn lemma_display_named(display: Seq<char>, process: u32)
    ensures
        ({
            let name = "niri."@ + display + seq!['.'] + text::decimal(process as nat) + ".sock"@;
            &&& discovery::display_of(name) == Some(display)
            &&& discovery::is_niri_name(name)
        }),
{
    let head = "niri."@;
    let tail = ".sock"@;
    let number = text::decimal(process as nat);
    text_laws::lemma_decimal(process as nat);
    let name = head + display + seq!['.'] + number + tail;
    assert(name.subrange(0, head.len() as int) =~= head);
    assert(text::stands_at(name, head, 0));
    let rest = name.skip(head.len() as int);
    let middle = display + seq!['.'] + number;
    assert(rest =~= middle + tail);
    assert(rest.subrange(rest.len() - tail.len(), rest.len() as int) =~= tail);
    assert(text::stands_at(rest, tail, rest.len() - tail.len()));
    assert(name.subrange(name.len() - tail.len(), name.len() as int) =~= tail);
    assert(text::stands_at(name, tail, name.len() - tail.len()));
    assert(rest.take(rest.len() - tail.len()) =~= middle);
    text_laws::lemma_last_index(middle, '.');
    assert(middle[display.len() as int] == '.');
    let at = text::last_index(middle, '.')->0;
    if at > display.len() {
        assert(middle[at] == number[at - display.len() - 1]);
    }
    assert(at == display.len());
    assert(middle.skip(at + 1) =~= number);
    assert(middle.take(at) =~= display);
}

/// Whether a name is one piece of a path that names a file.
pub open spec fn plain_name(name: Seq<char>) -> bool {
    &&& name.len() > 0
    &&& forall|i: int| 0 <= i < name.len() ==> #[trigger] name[i] != '/'
    &&& name != "."@
    &&& name != ".."@
}

/// The name of a file is what follows the last slash of its path.
pub proof fn lemma_file_name(directory: Seq<char>, name: Seq<char>)
    requires
        plain_name(name),
    ensures
        discovery::file_name(directory + seq!['/'] + name) == Some(name),
        discovery::file_name(name) == Some(name),
        discovery::file_name(directory + seq!['/'] + name + seq!['/']) == Some(name),
{
    let path = directory + seq!['/'] + name;
    text_laws::lemma_last_index(path, '/');
    text_laws::lemma_last_index(name, '/');
    assert(path[directory.len() as int] == '/');
    let at = text::last_index(path, '/')->0;
    if at > directory.len() {
        assert(path[at] == name[at - directory.len() - 1]);
    }
    assert(at == directory.len());
    assert(path.skip(at + 1) =~= name);
    assert(path.last() == name[name.len() - 1]);
    assert(name.last() == name[name.len() - 1]);
    assert(name.skip(0) =~= name);
    let slashed = path + seq!['/'];
    assert(slashed.drop_last() =~= path);
    assert(slashed.last() == '/');
}

/// The socket of a display belongs to it, wherever it lies.
pub proof fn lemma_socket_belongs(directory: Seq<char>, display: Seq<char>, process: u32)
    requires
        forall|i: int| 0 <= i < display.len() ==> #[trigger] display[i] != '/',
    ensures
        discovery::belongs(
            directory + seq!['/'] + ("niri."@ + display + "."@ + text::decimal(process as nat)
                + ".sock"@),
            display,
        ),
{
    reveal_strlit("niri.");
    reveal_strlit(".");
    reveal_strlit("..");
    reveal_strlit(".sock");
    let number = text::decimal(process as nat);
    text_laws::lemma_decimal(process as nat);
    let start = "niri."@ + display + "."@;
    let name = "niri."@ + display + "."@ + number + ".sock"@;
    assert(name =~= start + number + ".sock"@);
    assert forall|i: int| 0 <= i < name.len() implies #[trigger] name[i] != '/' by {
        if i < 5 {
            assert(name[i] == "niri."@[i]);
        } else if i < 5 + display.len() {
            assert(name[i] == display[i - 5]);
        } else if i == 5 + display.len() {
            assert(name[i] == '.');
        } else if i < start.len() + number.len() {
            assert(name[i] == number[i - start.len()]);
        } else {
            assert(name[i] == ".sock"@[i - start.len() - number.len()]);
        }
    }
    assert(name[0] == 'n');
    lemma_file_name(directory, name);
    assert(name.subrange(0, start.len() as int) =~= start);
    assert(text::stands_at(name, start, 0));
}

proof fn lemma_word(word: Seq<char>, rest: Seq<char>)
    requires
        forall|i: int| 0 <= i < word.len() ==> !text::is_white(#[trigger] word[i]),
        rest.len() == 0 || text::is_white(rest[0]),
    ensures
        discovery::until_white(word + rest) == word,
    decreases word.len(),
{
    let all = word + rest;
    if word.len() == 0 {
        assert(all =~= rest);
    } else {
        let later = word.skip(1);
        assert forall|i: int| 0 <= i < later.len() implies !text::is_white(
            #[trigger] later[i],
        ) by {
            assert(later[i] == word[i + 1]);
        }
        lemma_word(later, rest);
        assert(all.skip(1) =~= later + rest);
        assert(all[0] == word[0]);
        assert(seq![word[0]] + later =~= word);
    }
}

proof fn lemma_leading_white(before: Seq<char>, rest: Seq<char>)
    requires
        text_laws::blank(before),
        rest.len() > 0,
        !text::is_white(rest[0]),
    ensures
        text::trimmed_start(before + rest) == rest,
    decreases before.len(),
{
    let all = before + rest;
    if before.len() > 0 {
        let later = before.drop_first();
        assert(all[0] == before[0]);
        assert(all.drop_first() =~= later + rest);
        assert forall|i: int| 0 <= i < later.len() implies text::is_white(#[trigger] later[i]) by {
            assert(later[i] == before[i + 1]);
        }
        lemma_leading_white(later, rest);
    } else {
        assert(all =~= rest);
    }
}

/// The first word of a text is what stands between the white space before and after it.
pub proof fn lemma_first_word(before: Seq<char>, word: Seq<char>, rest: Seq<char>)
    requires
        text_laws::blank(before),
        word.len() > 0,
        forall|i: int| 0 <= i < word.len() ==> !text::is_white(#[trigger] word[i]),
        rest.len() == 0 || text::is_white(rest[0]),
    ensures
        discovery::first_word(before + word + rest) == Some(word),
{
    let inner = word + rest;
    assert(inner[0] == word[0]);
    lemma_leading_white(before, inner);
    assert(before + word + rest =~= before + inner);
    lemma_word(word, rest);
}

/// The user of a process is the first word behind the first `Uid:` that begins a line.
pub proof fn lemma_uid_read(
    lines: Seq<Seq<char>>,
    at: int,
    before: Seq<char>,
    word: Seq<char>,
    rest: Seq<char>,
)
    requires
        0 <= at < lines.len(),
        lines[at] == "Uid:"@ + (before + word + rest),
        forall|i: int| 0 <= i < at ==> !text::begins_with(#[trigger] lines[i], "Uid:"@),
        text_laws::blank(before),
        word.len() > 0,
        forall|i: int| 0 <= i < word.len() ==> !text::is_white(#[trigger] word[i]),
        rest.len() == 0 || text::is_white(rest[0]),
    ensures
        discovery::uid_line(lines, 0) is Some,
        discovery::first_word(discovery::uid_line(lines, 0)->0) == Some(word),
{
    let line = lines[at];
    let lead = "Uid:"@;
    let tail = before + word + rest;
    assert(line.subrange(0, lead.len() as int) =~= lead);
    assert(text::stands_at(line, lead, 0));
    assert(line.skip(lead.len() as int) =~= tail);
    lemma_uid_line(lines, 0, at);
    lemma_first_word(before, word, rest);
}

proof fn lemma_uid_line(lines: Seq<Seq<char>>, from: int, at: int)
    requires
        0 <= from <= at < lines.len(),
        text::begins_with(lines[at], "Uid:"@),
        forall|i: int| from <= i < at ==> !text::begins_with(#[trigger] lines[i], "Uid:"@),
    ensures
        discovery::uid_line(lines, from) == Some(lines[at].skip("Uid:"@.len() as int)),
    decreases at - from,
{
    if from < at {
        lemma_uid_line(lines, from + 1, at);
    }
}

/// Without a display the only socket is meant, and of several none.
pub proof fn lemma_only_socket(paths: Seq<String>, display: Seq<char>)
    ensures
        discovery::meant(paths, None) == if paths.len() == 1 {
            Some(0int)
        } else {
            None
        },
        paths.len() == 1 ==> discovery::meant(paths, Some(display)) == Some(0int),
        discovery::meant(paths, Some(display)) matches Some(place) ==> 0 <= place < paths.len() && (
        paths.len() == 1 || discovery::belongs(paths[place]@, display)),
{
    lemma_belonging(paths, display, paths.len() as int);
}

proof fn lemma_belonging(paths: Seq<String>, display: Seq<char>, count: int)
    requires
        0 <= count <= paths.len(),
    ensures
        discovery::belonging(paths, display, count).len() <= count,
        forall|i: int|
            0 <= i < discovery::belonging(paths, display, count).len() ==> {
                let place = #[trigger] discovery::belonging(paths, display, count)[i];
                0 <= place < count && discovery::belongs(paths[place]@, display)
            },
    decreases count,
{
    if count > 0 {
        lemma_belonging(paths, display, count - 1);
        let before = discovery::belonging(paths, display, count - 1);
        let all = discovery::belonging(paths, display, count);
        assert forall|i: int| 0 <= i < all.len() implies {
            let place = #[trigger] all[i];
            0 <= place < count && discovery::belongs(paths[place]@, display)
        } by {
            if i < before.len() {
                assert(all[i] == before[i]);
            }
        }
    }
}

/// Every variable of the session that has a value is handed on with it.
pub proof fn lemma_session_complete(
    process: Seq<Variable>,
    systemd: Seq<Variable>,
    count: int,
    i: int,
)
    requires
        0 <= i < count <= discovery::graphical_keys().len(),
        discovery::session_value(process, systemd, discovery::graphical_keys()[i]) is Some,
    ensures
        discovery::session_values(process, systemd, count).contains(
            (
                discovery::graphical_keys()[i],
                discovery::session_value(process, systemd, discovery::graphical_keys()[i])->0,
            ),
        ),
    decreases count,
{
    let key = discovery::graphical_keys()[i];
    let pair = (key, discovery::session_value(process, systemd, key)->0);
    let before = discovery::session_values(process, systemd, count - 1);
    let all = discovery::session_values(process, systemd, count);
    if i < count - 1 {
        lemma_session_complete(process, systemd, count - 1, i);
        let at = choose|at: int| 0 <= at < before.len() && before[at] == pair;
        assert(all[at] == pair);
    } else {
        assert(all[before.len() as int] == pair);
    }
}

/// Two dots at the end of a path name no file, and neither does nothing. A dot at the end does not
/// count.
pub proof fn lemma_dots(directory: Seq<char>)
    ensures
        discovery::file_name(directory + seq!['/', '.', '.']) is None,
        discovery::file_name(directory + seq!['/', '.']) == discovery::file_name(
            directory + seq!['/'],
        ),
        discovery::file_name(directory + seq!['/']) == discovery::file_name(directory),
        discovery::file_name(Seq::<char>::empty()) is None,
{
    reveal_strlit(".");
    reveal_strlit("..");
    let up = directory + seq!['/', '.', '.'];
    text_laws::lemma_last_index(up, '/');
    assert(up[directory.len() as int] == '/');
    let at = text::last_index(up, '/')->0;
    assert(up[directory.len() as int + 1] == '.' && up[directory.len() as int + 2] == '.');
    assert(at == directory.len());
    assert(up.skip(at + 1) =~= ".."@);
    assert(".."@.len() == 2 && "."@.len() == 1);
    assert(up.last() == '.');
    let here = directory + seq!['/', '.'];
    text_laws::lemma_last_index(here, '/');
    assert(here[directory.len() as int] == '/');
    assert(here[directory.len() as int + 1] == '.');
    let place = text::last_index(here, '/')->0;
    assert(place == directory.len());
    assert(here.skip(place + 1) =~= "."@);
    assert(here.last() == '.');
    let slashed = directory + seq!['/'];
    assert(here.take(place + 1) =~= slashed);
    assert(slashed.drop_last() =~= directory);
    assert(slashed.last() == '/');
}

/// What is known of the graphical session is its bus, its display with the key to it, and what kind
/// of session it is.
pub proof fn lemma_session_keys()
    ensures
        discovery::graphical_keys().len() == 6,
        discovery::graphical_keys().contains("DBUS_SESSION_BUS_ADDRESS"@),
        discovery::graphical_keys().contains("DISPLAY"@),
        discovery::graphical_keys().contains("XAUTHORITY"@),
        discovery::graphical_keys().contains("XDG_CURRENT_DESKTOP"@),
        discovery::graphical_keys().contains("XDG_SESSION_DESKTOP"@),
        discovery::graphical_keys().contains("XDG_SESSION_TYPE"@),
{
    let keys = discovery::graphical_keys();
    assert(keys[0] == "DBUS_SESSION_BUS_ADDRESS"@);
    assert(keys[1] == "DISPLAY"@);
    assert(keys[2] == "XAUTHORITY"@);
    assert(keys[3] == "XDG_CURRENT_DESKTOP"@);
    assert(keys[4] == "XDG_SESSION_DESKTOP"@);
    assert(keys[5] == "XDG_SESSION_TYPE"@);
}

/// Sockets are listed in their order: each follows what is listed of those before it, behind a comma.
pub proof fn lemma_sockets_listed(paths: Seq<String>, count: int)
    requires
        0 < count <= paths.len(),
    ensures
        ({
            let all = discovery::listed(paths, count);
            let path = paths[count - 1]@;
            &&& all.len() >= path.len()
            &&& all.skip(all.len() - path.len()) == path
            &&& count == 1 ==> all == path
            &&& count > 1 ==> all.take(all.len() - path.len()) == discovery::listed(
                paths,
                count - 1,
            ) + seq![',', ' ']
        }),
{
    reveal_strlit(", ");
    let all = discovery::listed(paths, count);
    let path = paths[count - 1]@;
    if count > 1 {
        let before = discovery::listed(paths, count - 1);
        assert(all =~= before + seq![',', ' '] + path);
        assert(all.take(all.len() - path.len()) =~= before + seq![',', ' ']);
    }
    assert(all.skip(all.len() - path.len()) =~= path);
}

/// No two places of a socket are said to be one.
pub proof fn lemma_places_told_apart(source: Source, other: Source)
    requires
        source != other,
    ensures
        source.says() != other.says(),
{
    reveal_strlit("command line");
    reveal_strlit("process environment");
    reveal_strlit("systemd user environment");
    reveal_strlit("runtime directory scan");
    assert(source.says().len() != other.says().len());
}

} // verus!
