//! Finding the graphical session: sockets, displays and environments.

use crate::text;
use crate::text::{
    chars_of, ends_with, find_char, find_last, is_whitespace, parse_u32, part_of, same,
    split_lines, starts_with, string_of,
};
use vstd::prelude::*;
use vstd::utf8::*;

verus! {

/// Where a session was found.
#[derive(Debug, Clone, Copy, PartialEq, Eq, Structural)]
pub enum Source {
    CommandLine,
    ProcessEnvironment,
    SystemdEnvironment,
    RuntimeScan,
}

impl Source {
    /// The source in words.
    pub open spec fn says(self) -> Seq<char> {
        match self {
            Source::CommandLine => "command line"@,
            Source::ProcessEnvironment => "process environment"@,
            Source::SystemdEnvironment => "systemd user environment"@,
            Source::RuntimeScan => "runtime directory scan"@,
        }
    }

    /// The source in words.
    pub fn words(&self) -> (words: &'static str)
        ensures
            words@ == self.says(),
    {
        match self {
            Source::CommandLine => "command line",
            Source::ProcessEnvironment => "process environment",
            Source::SystemdEnvironment => "systemd user environment",
            Source::RuntimeScan => "runtime directory scan",
        }
    }
}

/// The first place to look for a socket.
pub open spec fn first_place(named: bool, in_process: bool, in_systemd: bool) -> Source {
    if named {
        Source::CommandLine
    } else if in_process {
        Source::ProcessEnvironment
    } else if in_systemd {
        Source::SystemdEnvironment
    } else {
        Source::RuntimeScan
    }
}

/// Decides where to look for a socket first, by where one is named.
pub fn discover(named: bool, in_process: bool, in_systemd: bool) -> (source: Source)
    ensures
        source == first_place(named, in_process, in_systemd),
{
    if named {
        Source::CommandLine
    } else if in_process {
        Source::ProcessEnvironment
    } else if in_systemd {
        Source::SystemdEnvironment
    } else {
        Source::RuntimeScan
    }
}

/// Where to look after the socket of a source did not answer. A socket that the user named must
/// answer.
pub open spec fn next_place(failed: Source, in_systemd: bool) -> Option<Source> {
    match failed {
        Source::CommandLine => None,
        Source::ProcessEnvironment => Some(first_place(false, false, in_systemd)),
        Source::SystemdEnvironment => Some(Source::RuntimeScan),
        Source::RuntimeScan => None,
    }
}

/// Decides where to look after the socket of a source did not answer.
pub fn after_failure(failed: Source, in_systemd: bool) -> (source: Option<Source>)
    ensures
        source == next_place(failed, in_systemd),
{
    match failed {
        Source::CommandLine => None,
        Source::ProcessEnvironment => if in_systemd {
            Some(Source::SystemdEnvironment)
        } else {
            Some(Source::RuntimeScan)
        },
        Source::SystemdEnvironment => Some(Source::RuntimeScan),
        Source::RuntimeScan => None,
    }
}

/// A rank that grows along the search.
pub open spec fn rank(source: Source) -> int {
    match source {
        Source::CommandLine => 0,
        Source::ProcessEnvironment => 1,
        Source::SystemdEnvironment => 2,
        Source::RuntimeScan => 3,
    }
}

/// The search goes on to later sources only, and never past a socket that the user named.
pub proof fn lemma_search_ends(failed: Source, in_systemd: bool)
    ensures
        next_place(failed, in_systemd) matches Some(next) ==> rank(next) > rank(failed),
        next_place(Source::CommandLine, in_systemd) is None,
{
}

/// A variable of an environment. The value is raw; what is shown of it is text.
pub struct Variable {
    pub key: String,
    pub value: Vec<u8>,
    pub shown: String,
}

/// The last variable with a key among the first `count`.
pub open spec fn place_of(variables: Seq<Variable>, key: Seq<char>, count: int) -> Option<int>
    decreases count,
{
    if count <= 0 {
        None
    } else if variables[count - 1].key@ == key {
        Some(count - 1)
    } else {
        place_of(variables, key, count - 1)
    }
}

/// The variable that a key names. Later variables replace earlier ones.
pub open spec fn lookup(variables: Seq<Variable>, key: Seq<char>) -> Option<Variable> {
    match place_of(variables, key, variables.len() as int) {
        Some(place) => Some(variables[place]),
        None => None,
    }
}

/// The variable that a key names in the process, or else in the systemd user manager.
pub open spec fn nearest(
    process: Seq<Variable>,
    systemd: Seq<Variable>,
    key: Seq<char>,
) -> Option<Variable> {
    match lookup(process, key) {
        Some(variable) => Some(variable),
        None => lookup(systemd, key),
    }
}

/// The variable that a key names.
pub fn variable<'a>(variables: &'a Vec<Variable>, key: &str) -> (found: Option<&'a Variable>)
    ensures
        match lookup(variables@, key@) {
            Some(variable) => found == Some(&variable),
            None => found is None,
        },
{
    let mut i: usize = variables.len();
    while i > 0
        invariant
            i <= variables@.len(),
            place_of(variables@, key@, i as int) == place_of(
                variables@,
                key@,
                variables@.len() as int,
            ),
        decreases i,
    {
        if same(variables[i - 1].key.as_str(), key) {
            return Some(&variables[i - 1]);
        }
        i = i - 1;
    }
    None
}

/// The variables that commands in the session need.
pub open spec fn graphical_keys() -> Seq<Seq<char>> {
    seq![
        "DBUS_SESSION_BUS_ADDRESS"@,
        "DISPLAY"@,
        "XAUTHORITY"@,
        "XDG_CURRENT_DESKTOP"@,
        "XDG_SESSION_DESKTOP"@,
        "XDG_SESSION_TYPE"@,
    ]
}

/// The value of a variable of the session: that of the systemd user manager, which belongs to the
/// local session, before that of the process, which may be forwarded.
pub open spec fn session_value(
    process: Seq<Variable>,
    systemd: Seq<Variable>,
    key: Seq<char>,
) -> Option<Seq<u8>> {
    match lookup(systemd, key) {
        Some(variable) => Some(variable.value@),
        None => match lookup(process, key) {
            Some(variable) => Some(variable.value@),
            None => None,
        },
    }
}

/// The values of the first `count` variables of the session.
pub open spec fn session_values(
    process: Seq<Variable>,
    systemd: Seq<Variable>,
    count: int,
) -> Seq<(Seq<char>, Seq<u8>)>
    decreases count,
{
    if count <= 0 {
        seq![]
    } else {
        let before = session_values(process, systemd, count - 1);
        match session_value(process, systemd, graphical_keys()[count - 1]) {
            Some(value) => before.push((graphical_keys()[count - 1], value)),
            None => before,
        }
    }
}

/// What pairs of a key and a value say.
pub open spec fn pairs(variables: Seq<(String, Vec<u8>)>) -> Seq<(Seq<char>, Seq<u8>)> {
    variables.map_values(|pair: (String, Vec<u8>)| (pair.0@, pair.1@))
}

fn push_session_value(
    values: &mut Vec<(String, Vec<u8>)>,
    process: &Vec<Variable>,
    systemd: &Vec<Variable>,
    key: &str,
)
    ensures
        pairs(final(values)@) == match session_value(process@, systemd@, key@) {
            Some(value) => pairs(old(values)@).push((key@, value)),
            None => pairs(old(values)@),
        },
{
    let found = match variable(systemd, key) {
        Some(found) => Some(found),
        None => variable(process, key),
    };
    if let Some(found) = found {
        values.push((key.to_owned(), found.value.clone()));
        assert(pairs(values@) =~= pairs(old(values)@).push((key@, found.value@)));
    }
}

/// The environment for commands in the session.
pub fn graphical_environment(process: &Vec<Variable>, systemd: &Vec<Variable>) -> (values: Vec<
    (String, Vec<u8>),
>)
    ensures
        pairs(values@) == session_values(process@, systemd@, graphical_keys().len() as int),
{
    let mut values: Vec<(String, Vec<u8>)> = Vec::new();
    proof {
        reveal_with_fuel(session_values, 7);
    }
    assert(pairs(values@) =~= seq![]);
    push_session_value(&mut values, process, systemd, "DBUS_SESSION_BUS_ADDRESS");
    push_session_value(&mut values, process, systemd, "DISPLAY");
    push_session_value(&mut values, process, systemd, "XAUTHORITY");
    push_session_value(&mut values, process, systemd, "XDG_CURRENT_DESKTOP");
    push_session_value(&mut values, process, systemd, "XDG_SESSION_DESKTOP");
    push_session_value(&mut values, process, systemd, "XDG_SESSION_TYPE");
    values
}

/// The variable that a line sets, if it sets one.
pub open spec fn assignment(line: Seq<char>) -> Option<(Seq<char>, Seq<char>)> {
    match text::first_index(line, '=') {
        Some(at) => Some((line.take(at), line.skip(at + 1))),
        None => None,
    }
}

/// What the first `count` lines set.
pub open spec fn assignments(lines: Seq<Seq<char>>, count: int) -> Seq<(Seq<char>, Seq<char>)>
    decreases count,
{
    if count <= 0 {
        seq![]
    } else {
        let before = assignments(lines, count - 1);
        match assignment(lines[count - 1]) {
            Some(pair) => before.push(pair),
            None => before,
        }
    }
}

/// What variables say: their keys and their values as text.
pub open spec fn shown(variables: Seq<Variable>) -> Seq<(Seq<char>, Seq<char>)> {
    variables.map_values(|variable: Variable| (variable.key@, variable.shown@))
}

/// Reads what `systemctl --user show-environment` prints.
pub fn systemd_user_environment(output: &str) -> (variables: Vec<Variable>)
    ensures
        shown(variables@) == assignments(
            text::lines(output@),
            text::lines(output@).len() as int,
        ),
        forall|i: int|
            0 <= i < variables@.len() ==> (#[trigger] variables@[i]).value@ == encode_utf8(
                variables@[i].shown@,
            ),
{
    let all = chars_of(output);
    let lines = split_lines(&all);
    let mut variables: Vec<Variable> = Vec::new();
    let mut i: usize = 0;
    let ghost expected = text::lines(output@);
    assert(shown(variables@) =~= assignments(expected, 0));
    while i < lines.len()
        invariant
            i <= lines@.len(),
            expected == text::texts(lines@),
            shown(variables@) == assignments(expected, i as int),
            forall|j: int|
                0 <= j < variables@.len() ==> (#[trigger] variables@[j]).value@ == encode_utf8(
                    variables@[j].shown@,
                ),
        decreases lines@.len() - i,
    {
        let line = &lines[i];
        assert(expected[i as int] == line@);
        let len: usize = line.len();
        if let Some(at) = find_char(line, '=') {
            let key = string_of(&part_of(line, 0, at));
            let value = string_of(&part_of(line, at + 1, len));
            assert(key@ =~= line@.take(at as int));
            assert(value@ =~= line@.skip(at + 1));
            let mut bytes: Vec<u8> = Vec::new();
            text::push_text(&mut bytes, value.as_str());
            assert(bytes@ =~= encode_utf8(value@));
            let ghost before = shown(variables@);
            variables.push(Variable { key, value: bytes, shown: value });
            assert(shown(variables@) =~= before.push((key@, value@)));
        }
        i = i + 1;
    }
    variables
}

/// What follows `Uid:` on the first line that begins so, among those from `from` on.
pub open spec fn uid_line(lines: Seq<Seq<char>>, from: int) -> Option<Seq<char>>
    decreases lines.len() - from,
{
    if from < 0 || from >= lines.len() {
        None
    } else if text::begins_with(lines[from], "Uid:"@) {
        Some(lines[from].skip("Uid:"@.len() as int))
    } else {
        uid_line(lines, from + 1)
    }
}

/// The text up to the first white space.
pub open spec fn until_white(chars: Seq<char>) -> Seq<char>
    decreases chars.len(),
{
    if chars.len() == 0 || text::is_white(chars[0]) {
        seq![]
    } else {
        seq![chars[0]] + until_white(chars.skip(1))
    }
}

/// The first word of a text.
pub open spec fn first_word(chars: Seq<char>) -> Option<Seq<char>> {
    let word = until_white(text::trimmed_start(chars));
    if word.len() == 0 {
        None
    } else {
        Some(word)
    }
}

/// The user id that a process status names.
pub open spec fn status_uid(status: Seq<char>) -> Option<Seq<char>> {
    match uid_line(text::lines(status), 0) {
        Some(rest) => first_word(rest),
        None => None,
    }
}

fn word_of(chars: &Vec<char>, from: usize) -> (word: Option<Vec<char>>)
    requires
        from <= chars@.len(),
    ensures
        match first_word(chars@.skip(from as int)) {
            Some(expected) => word matches Some(word) && word@ == expected,
            None => word is None,
        },
{
    let len: usize = chars.len();
    let mut start: usize = from;
    let ghost whole = chars@.skip(from as int);
    while start < len && is_whitespace(chars[start])
        invariant
            from <= start <= len,
            len == chars@.len(),
            text::trimmed_start(chars@.skip(start as int)) == text::trimmed_start(whole),
        decreases len - start,
    {
        assert(chars@.skip(start as int).drop_first() =~= chars@.skip(start + 1));
        start = start + 1;
    }
    let ghost inner = chars@.skip(start as int);
    assert(text::trimmed_start(whole) == inner);
    let mut word: Vec<char> = Vec::new();
    let mut i: usize = start;
    assert(word@ + until_white(chars@.skip(i as int)) =~= until_white(inner));
    while i < len && !is_whitespace(chars[i])
        invariant
            start <= i <= len,
            len == chars@.len(),
            word@ + until_white(chars@.skip(i as int)) == until_white(inner),
        decreases len - i,
    {
        assert(chars@.skip(i as int).skip(1) =~= chars@.skip(i + 1));
        word.push(chars[i]);
        i = i + 1;
        assert(word@ + until_white(chars@.skip(i as int)) =~= until_white(inner));
    }
    assert(until_white(chars@.skip(i as int)) =~= seq![]);
    assert(word@ =~= until_white(inner));
    if word.len() == 0 {
        None
    } else {
        Some(word)
    }
}

/// The runtime directory of the user that a process status names.
pub fn runtime_dir_of_status(status: &str) -> (directory: Option<String>)
    ensures
        match status_uid(status@) {
            Some(uid) => directory matches Some(directory) && directory@ == "/run/user/"@ + uid,
            None => directory is None,
        },
{
    let all = chars_of(status);
    let lines = split_lines(&all);
    let ghost expected = text::lines(status@);
    proof {
        reveal_strlit("Uid:");
    }
    let mut i: usize = 0;
    while i < lines.len()
        invariant
            i <= lines@.len(),
            expected == text::texts(lines@),
            expected == text::lines(status@),
            "Uid:"@.len() == 4,
            uid_line(expected, i as int) == uid_line(expected, 0),
        decreases lines@.len() - i,
    {
        assert(expected[i as int] == lines@[i as int]@);
        if starts_with(&lines[i], "Uid:") {
            return match word_of(&lines[i], 4) {
                Some(uid) => {
                    let mut directory = "/run/user/".to_owned();
                    directory.append(string_of(&uid).as_str());
                    Some(directory)
                },
                None => None,
            };
        }
        i = i + 1;
    }
    None
}

/// Where the runtime directory is named: by the process, or else by the systemd user manager.
pub fn runtime_dir(process: &Vec<Variable>, systemd: &Vec<Variable>) -> (directory: Option<Vec<u8>>)
    ensures
        match nearest(process@, systemd@, "XDG_RUNTIME_DIR"@) {
            Some(variable) => directory matches Some(directory) && directory@ == variable.value@,
            None => directory is None,
        },
{
    let found = match variable(process, "XDG_RUNTIME_DIR") {
        Some(found) => Some(found),
        None => variable(systemd, "XDG_RUNTIME_DIR"),
    };
    match found {
        Some(found) => Some(found.value.clone()),
        None => None,
    }
}

/// The last name of a path. Slashes at the end and single dots do not count, and two dots name
/// nothing.
pub open spec fn file_name(path: Seq<char>) -> Option<Seq<char>>
    decreases path.len(),
{
    if path.len() == 0 {
        None
    } else if path.last() == '/' {
        file_name(path.drop_last())
    } else {
        let start = match text::last_index(path, '/') {
            Some(at) => at + 1,
            None => 0,
        };
        let piece = path.skip(start);
        if piece == "."@ && 0 <= start < path.len() {
            file_name(path.take(start))
        } else if piece == ".."@ {
            None
        } else {
            Some(piece)
        }
    }
}

/// The last name of a path.
pub fn name_of(path: &str) -> (name: Option<Vec<char>>)
    ensures
        match file_name(path@) {
            Some(expected) => name matches Some(name) && name@ == expected,
            None => name is None,
        },
{
    let chars = chars_of(path);
    let mut end: usize = chars.len();
    assert(chars@.take(end as int) =~= path@);
    while end > 0
        invariant
            end <= chars@.len(),
            chars@ == path@,
            file_name(chars@.take(end as int)) == file_name(path@),
        decreases end,
    {
        let ghost whole = chars@.take(end as int);
        if chars[end - 1] == '/' {
            assert(whole.drop_last() =~= chars@.take(end - 1));
            end = end - 1;
        } else {
            let front = part_of(&chars, 0, end);
            assert(front@ =~= whole);
            let start: usize = match find_last(&front, '/') {
                Some(at) => at + 1,
                None => 0,
            };
            let piece = part_of(&front, start, end);
            assert(piece@ =~= whole.skip(start as int));
            proof {
                lemma_last_index_inside(whole, '/');
            }
            let shown = string_of(&piece);
            if same(shown.as_str(), ".") {
                assert(whole.take(start as int) =~= chars@.take(start as int));
                end = start;
            } else if same(shown.as_str(), "..") {
                return None;
            } else {
                return Some(piece);
            }
        }
    }
    None
}

proof fn lemma_last_index_inside(chars: Seq<char>, c: char)
    requires
        chars.len() > 0,
        chars.last() != c,
    ensures
        text::last_index(chars, c) matches Some(at) ==> 0 <= at < chars.len() - 1,
    decreases chars.len(),
{
    reveal_with_fuel(text::last_index, 2);
    let shorter = chars.drop_last();
    if shorter.len() > 0 && shorter.last() != c {
        lemma_last_index_inside(shorter, c);
    }
}

/// Whether a file name is that of a niri socket.
pub open spec fn is_niri_name(name: Seq<char>) -> bool {
    text::begins_with(name, "niri."@) && text::finishes_with(name, ".sock"@)
}

/// Whether a file name is that of a niri socket.
pub fn is_socket_name(name: &str) -> (found: bool)
    ensures
        found == is_niri_name(name@),
{
    let chars = chars_of(name);
    starts_with(&chars, "niri.") && ends_with(&chars, ".sock")
}

/// The display that the name of a niri socket holds: it stands between `niri.` and the process
/// number before `.sock`.
pub open spec fn display_of(name: Seq<char>) -> Option<Seq<char>> {
    if !text::begins_with(name, "niri."@) {
        None
    } else {
        let rest = name.skip("niri."@.len() as int);
        if !text::finishes_with(rest, ".sock"@) {
            None
        } else {
            let middle = rest.take(rest.len() - ".sock"@.len());
            match text::last_index(middle, '.') {
                None => None,
                Some(at) => if text::number32(middle.skip(at + 1)) is Some {
                    Some(middle.take(at))
                } else {
                    None
                },
            }
        }
    }
}

/// The display of a niri socket, by its path.
pub fn display_from_socket(path: &str) -> (display: Option<String>)
    ensures
        match file_name(path@) {
            None => display is None,
            Some(name) => match display_of(name) {
                Some(expected) => display matches Some(display) && display@ == expected,
                None => display is None,
            },
        },
{
    let name = match name_of(path) {
        Some(name) => name,
        None => return None,
    };
    proof {
        reveal_strlit("niri.");
        reveal_strlit(".sock");
    }
    if !starts_with(&name, "niri.") {
        return None;
    }
    let len: usize = name.len();
    let rest = part_of(&name, 5, len);
    assert(rest@ =~= name@.skip(5));
    if !ends_with(&rest, ".sock") {
        return None;
    }
    let middle = part_of(&rest, 0, rest.len() - 5);
    assert(middle@ =~= rest@.take(rest@.len() - 5));
    let at: usize = match find_last(&middle, '.') {
        Some(at) => at,
        None => return None,
    };
    let end: usize = middle.len();
    let number = part_of(&middle, at + 1, end);
    assert(number@ =~= middle@.skip(at + 1));
    match parse_u32(&number) {
        Some(_) => {
            let display = part_of(&middle, 0, at);
            assert(display@ =~= middle@.take(at as int));
            Some(string_of(&display))
        },
        None => None,
    }
}

/// Whether the socket at a path belongs to a display.
pub open spec fn belongs(path: Seq<char>, display: Seq<char>) -> bool {
    file_name(path) matches Some(name) && text::begins_with(name, "niri."@ + display + "."@)
}

/// The places of those of the first `count` paths that belong to a display.
pub open spec fn belonging(paths: Seq<String>, display: Seq<char>, count: int) -> Seq<int>
    decreases count,
{
    if count <= 0 {
        seq![]
    } else if belongs(paths[count - 1]@, display) {
        belonging(paths, display, count - 1).push(count - 1)
    } else {
        belonging(paths, display, count - 1)
    }
}

/// Which of the live sockets is meant: the only one of the display, or else the only one.
pub open spec fn meant(paths: Seq<String>, display: Option<Seq<char>>) -> Option<int> {
    if display is Some && belonging(paths, display->0, paths.len() as int).len() == 1 {
        Some(belonging(paths, display->0, paths.len() as int)[0])
    } else if paths.len() == 1 {
        Some(0)
    } else {
        None
    }
}

/// The paths with commas between them.
pub open spec fn listed(paths: Seq<String>, count: int) -> Seq<char>
    decreases count,
{
    if count <= 0 {
        seq![]
    } else if count == 1 {
        paths[0]@
    } else {
        listed(paths, count - 1) + ", "@ + paths[count - 1]@
    }
}

/// Why no socket could be chosen.
pub enum SelectError {
    /// There is none.
    NoSession,
    /// There are several, which are listed.
    Ambiguous(String),
}

impl SelectError {
    /// The error in words.
    pub fn message(&self) -> (message: String)
        ensures
            message@ == match *self {
                SelectError::NoSession =>
                    "no live niri IPC socket found; is the graphical session running?"@,
                SelectError::Ambiguous(paths) => "multiple live niri sessions found ("@ + paths@
                    + "); pass --niri-socket PATH"@,
            },
    {
        match self {
            SelectError::NoSession =>
                "no live niri IPC socket found; is the graphical session running?".to_owned(),
            SelectError::Ambiguous(paths) => {
                let mut message = "multiple live niri sessions found (".to_owned();
                message.append(paths.as_str());
                message.append("); pass --niri-socket PATH");
                message
            },
        }
    }
}

/// Chooses one of the live sockets by its place.
pub fn select_candidate(candidates: &Vec<String>, display: Option<&str>) -> (selected: Result<
    usize,
    SelectError,
>)
    ensures
        ({
            let wanted = match display {
                Some(display) => Some(display@),
                None => None,
            };
            match meant(candidates@, wanted) {
                Some(place) => selected matches Ok(index) && index == place && index
                    < candidates@.len(),
                None => if candidates@.len() == 0 {
                    selected matches Err(SelectError::NoSession)
                } else {
                    selected matches Err(SelectError::Ambiguous(paths)) && paths@ == listed(
                        candidates@,
                        candidates@.len() as int,
                    )
                },
            }
        }),
{
    let len: usize = candidates.len();
    if let Some(display) = display {
        let mut prefix = "niri.".to_owned();
        prefix.append(display);
        prefix.append(".");
        let mut count: usize = 0;
        let mut found: usize = 0;
        let mut i: usize = 0;
        while i < len
            invariant
                i <= len,
                len == candidates@.len(),
                count <= i,
                prefix@ == "niri."@ + display@ + "."@,
                count == belonging(candidates@, display@, i as int).len(),
                count > 0 ==> found < i && found == belonging(candidates@, display@, i as int)[0],
            decreases len - i,
        {
            let matches_display = match name_of(candidates[i].as_str()) {
                Some(name) => starts_with(&name, prefix.as_str()),
                None => false,
            };
            assert(matches_display == belongs(candidates@[i as int]@, display@));
            if matches_display {
                if count == 0 {
                    found = i;
                }
                count = count + 1;
            }
            i = i + 1;
        }
        if count == 1 {
            return Ok(found);
        }
    }
    if len == 1 {
        return Ok(0);
    }
    if len == 0 {
        return Err(SelectError::NoSession);
    }
    let mut paths = candidates[0].clone();
    let mut i: usize = 1;
    while i < len
        invariant
            1 <= i <= len,
            len == candidates@.len(),
            paths@ == listed(candidates@, i as int),
        decreases len - i,
    {
        paths.append(", ");
        paths.append(candidates[i].as_str());
        i = i + 1;
    }
    Err(SelectError::Ambiguous(paths))
}

/// The display of a session: what the process names, or the systemd user manager, or the socket.
pub fn session_display(
    process: &Vec<Variable>,
    systemd: &Vec<Variable>,
    socket: Option<&str>,
) -> (display: Option<String>)
    ensures
        match nearest(process@, systemd@, "WAYLAND_DISPLAY"@) {
            Some(variable) => display matches Some(display) && display@ == variable.shown@,
            None => match socket {
                None => display is None,
                Some(socket) => match file_name(socket@) {
                    None => display is None,
                    Some(name) => match display_of(name) {
                        Some(expected) => display matches Some(display) && display@ == expected,
                        None => display is None,
                    },
                },
            },
        },
{
    match preferred_display(process, systemd) {
        Some(display) => Some(display),
        None => match socket {
            Some(socket) => display_from_socket(socket),
            None => None,
        },
    }
}

/// The display that the process names, or the systemd user manager.
pub fn preferred_display(process: &Vec<Variable>, systemd: &Vec<Variable>) -> (display: Option<
    String,
>)
    ensures
        match nearest(process@, systemd@, "WAYLAND_DISPLAY"@) {
            Some(variable) => display matches Some(display) && display@ == variable.shown@,
            None => display is None,
        },
{
    let found = match variable(process, "WAYLAND_DISPLAY") {
        Some(found) => Some(found),
        None => variable(systemd, "WAYLAND_DISPLAY"),
    };
    match found {
        Some(found) => Some(found.shown.clone()),
        None => None,
    }
}

/// Where one live socket belongs to the display, it is chosen, whatever others there are.
pub proof fn lemma_display_decides(paths: Seq<String>, display: Seq<char>, place: int)
    requires
        0 <= place < paths.len(),
        belongs(paths[place]@, display),
        forall|i: int|
            0 <= i < paths.len() && i != place ==> !belongs((#[trigger] paths[i])@, display),
    ensures
        meant(paths, Some(display)) == Some(place),
{
    lemma_belonging_one(paths, display, place, paths.len() as int);
}

proof fn lemma_belonging_one(paths: Seq<String>, display: Seq<char>, place: int, count: int)
    requires
        0 <= place < paths.len(),
        0 <= count <= paths.len(),
        belongs(paths[place]@, display),
        forall|i: int|
            0 <= i < paths.len() && i != place ==> !belongs((#[trigger] paths[i])@, display),
    ensures
        belonging(paths, display, count) == if place < count {
            seq![place]
        } else {
            seq![]
        },
    decreases count,
{
    if count > 0 {
        lemma_belonging_one(paths, display, place, count - 1);
        assert(count - 1 != place ==> !belongs(paths[count - 1]@, display));
        assert(belonging(paths, display, count) =~= if place < count {
            seq![place]
        } else {
            seq![]
        });
    }
}

/// Only variables of the session's own list are handed on.
pub proof fn lemma_only_graphical_keys(
    process: Seq<Variable>,
    systemd: Seq<Variable>,
    count: int,
    i: int,
)
    requires
        0 <= count <= graphical_keys().len(),
        0 <= i < session_values(process, systemd, count).len(),
    ensures
        graphical_keys().contains(session_values(process, systemd, count)[i].0),
        session_value(process, systemd, session_values(process, systemd, count)[i].0) == Some(
            session_values(process, systemd, count)[i].1,
        ),
    decreases count,
{
    if count > 0 {
        let before = session_values(process, systemd, count - 1);
        if i < before.len() {
            lemma_only_graphical_keys(process, systemd, count - 1, i);
        } else {
            assert(graphical_keys()[count - 1] == session_values(process, systemd, count)[i].0);
        }
    }
}

} // verus!
