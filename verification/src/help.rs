//! The `help` and `list` commands: listing the registered commands, optionally filtered by a
//! fuzzy query.

use vstd::prelude::*;
use vstd::utf8::encode_utf8;

use crate::search::{command_matches_query, spec_command_matches_query};
use crate::text::{string_views, trim, trim_end, trim_end_seq, trim_seq};

verus! {

/// A registered command as the listings show it: its name and its one-line description.
pub struct CommandInfo {
    /// The name the command is entered by.
    pub name: String,
    /// The command's description, if it has one.
    pub about: Option<String>,
}

impl CommandInfo {
    /// The description's characters, if there is one.
    pub open spec fn about_view(self) -> Option<Seq<char>> {
        match self.about {
            Some(a) => Some(a@),
            None => None,
        }
    }
}

/// The characters of an optional string.
pub open spec fn option_view(s: Option<&str>) -> Option<Seq<char>> {
    match s {
        Some(t) => Some(t@),
        None => None,
    }
}

/// The query a listing filters by: the trimmed query, or none when it is absent or blank.
pub open spec fn list_filter(query: Option<Seq<char>>) -> Option<Seq<char>> {
    match query {
        Some(q) => if trim_seq(q).len() > 0 {
            Some(trim_seq(q))
        } else {
            None
        },
        None => None,
    }
}

/// The command is listed for the filter: always without one, else when it matches it.
pub open spec fn command_listed(filter: Option<Seq<char>>, command: CommandInfo) -> bool {
    match filter {
        Some(q) => spec_command_matches_query(q, command.name@, command.about_view()),
        None => true,
    }
}

/// The listed commands, in registry order.
pub open spec fn listed_commands(filter: Option<Seq<char>>, commands: Seq<CommandInfo>) -> Seq<
    CommandInfo,
>
    decreases commands.len(),
{
    if commands.len() == 0 {
        seq![]
    } else {
        let rest = listed_commands(filter, commands.drop_last());
        if command_listed(filter, commands.last()) {
            rest.push(commands.last())
        } else {
            rest
        }
    }
}

/// The byte length of the longest name among the commands (0 for none).
pub open spec fn name_width(commands: Seq<CommandInfo>) -> int
    decreases commands.len(),
{
    if commands.len() == 0 {
        0
    } else {
        let rest = name_width(commands.drop_last());
        let here = byte_len(commands.last().name@) as int;
        if rest < here {
            here
        } else {
            rest
        }
    }
}

/// The length of `s` in UTF-8 bytes, as `str::len` gives it.
pub open spec fn byte_len(s: Seq<char>) -> usize {
    encode_utf8(s).len() as usize
}

/// `n` spaces.
pub open spec fn spaces(n: int) -> Seq<char> {
    Seq::new(n as nat, |i: int| ' ')
}

/// A listing line: two spaces, the name padded to `width` bytes, ` - ` and the description if
/// there is one, without trailing whitespace.
pub open spec fn command_line(command: CommandInfo, width: int) -> Seq<char> {
    let padded = seq![' ', ' '] + command.name@ + spaces(
        width - byte_len(command.name@),
    );
    trim_end_seq(
        match command.about_view() {
            Some(a) => padded + seq![' ', '-', ' '] + a,
            None => padded,
        },
    )
}

/// The listing of the commands for a query: one line per listed command, names padded to the
/// longest listed name.
pub open spec fn spec_command_list_lines(commands: Seq<CommandInfo>, query: Option<Seq<char>>) -> Seq<
    Seq<char>,
> {
    let listed = listed_commands(list_filter(query), commands);
    listed.map_values(|c: CommandInfo| command_line(c, name_width(listed)))
}

proof fn lemma_name_width_bound(commands: Seq<CommandInfo>, i: int)
    requires
        0 <= i < commands.len(),
    ensures
        byte_len(commands[i].name@) <= name_width(commands),
        name_width(commands) >= 0,
    decreases commands.len(),
{
    if i < commands.len() - 1 {
        lemma_name_width_bound(commands.drop_last(), i);
    }
}

spec fn picked(commands: Seq<CommandInfo>, kept: Seq<usize>) -> Seq<CommandInfo> {
    kept.map_values(|k: usize| commands[k as int])
}

/// The listing lines for the registered commands, filtered by `query` when it is not blank.
pub fn command_list_lines(commands: &[CommandInfo], query: Option<&str>) -> (r: Vec<String>)
    ensures
        string_views(r@) == spec_command_list_lines(commands@, option_view(query)),
{
    let filter: Option<String> = match query {
        Some(q) => {
            let t = trim(q);
            if t.as_str().is_empty() {
                None
            } else {
                Some(t)
            }
        },
        None => None,
    };
    let ghost spec_filter = list_filter(option_view(query));
    assert(spec_filter == match filter {
        Some(f) => Some(f@),
        None => None::<Seq<char>>,
    });
    let mut kept: Vec<usize> = Vec::new();
    let mut i: usize = 0;
    assert(commands@.take(0) =~= Seq::<CommandInfo>::empty());
    assert(picked(commands@, kept@) =~= Seq::<CommandInfo>::empty());
    while i < commands.len()
        invariant
            i <= commands@.len(),
            spec_filter == match filter {
                Some(f) => Some(f@),
                None => None::<Seq<char>>,
            },
            forall|k: int| 0 <= k < kept@.len() ==> #[trigger] kept@[k] < commands@.len(),
            picked(commands@, kept@) == listed_commands(spec_filter, commands@.take(i as int)),
        decreases commands@.len() - i,
    {
        let listed = match &filter {
            Some(f) => {
                let about = match &commands[i].about {
                    Some(a) => Some(a.clone()),
                    None => None,
                };
                command_matches_query(f.as_str(), commands[i].name.as_str(), about)
            },
            None => true,
        };
        let ghost before = kept@;
        proof {
            assert(commands@.take(i + 1).drop_last() =~= commands@.take(i as int));
            assert(commands@.take(i + 1).last() == commands@[i as int]);
        }
        if listed {
            kept.push(i);
            assert(picked(commands@, kept@) =~= picked(commands@, before).push(commands@[i as int]));
        }
        i = i + 1;
    }
    assert(commands@.take(commands@.len() as int) =~= commands@);
    let ghost listed_all = picked(commands@, kept@);
    let mut width: usize = 0;
    let mut k: usize = 0;
    assert(listed_all.take(0) =~= Seq::<CommandInfo>::empty());
    while k < kept.len()
        invariant
            k <= kept@.len(),
            listed_all == picked(commands@, kept@),
            forall|t: int| 0 <= t < kept@.len() ==> #[trigger] kept@[t] < commands@.len(),
            width as int == name_width(listed_all.take(k as int)),
        decreases kept@.len() - k,
    {
        let len = commands[kept[k]].name.as_str().len();
        proof {
            assert(listed_all.take(k + 1).drop_last() =~= listed_all.take(k as int));
            assert(listed_all.take(k + 1).last() == commands@[kept@[k as int] as int]);
        }
        if width < len {
            width = len;
        }
        k = k + 1;
    }
    assert(listed_all.take(kept@.len() as int) =~= listed_all);
    let mut r: Vec<String> = Vec::new();
    let mut k: usize = 0;
    while k < kept.len()
        invariant
            k <= kept@.len(),
            listed_all == picked(commands@, kept@),
            forall|t: int| 0 <= t < kept@.len() ==> #[trigger] kept@[t] < commands@.len(),
            width as int == name_width(listed_all),
            r@.len() == k,
            forall|t: int|
                0 <= t < k ==> #[trigger] r@[t]@ == command_line(listed_all[t], width as int),
        decreases kept@.len() - k,
    {
        let c = &commands[kept[k]];
        assert(listed_all[k as int] == *c);
        let name_len = c.name.as_str().len();
        proof {
            lemma_name_width_bound(listed_all, k as int);
        }
        let mut line = String::from_str("  ");
        line.append(c.name.as_str());
        let pad = width - name_len;
        let mut p: usize = 0;
        proof {
            reveal_strlit("  ");
            reveal_strlit(" ");
            reveal_strlit(" - ");
        }
        while p < pad
            invariant
                p <= pad,
                line@ == seq![' ', ' '] + c.name@ + spaces(p as int),
            decreases pad - p,
        {
            proof {
                reveal_strlit(" ");
            }
            line.append(" ");
            p = p + 1;
            assert(line@ =~= seq![' ', ' '] + c.name@ + spaces(p as int));
        }
        match &c.about {
            Some(about) => {
                line.append(" - ");
                line.append(about.as_str());
                assert(line@ =~= seq![' ', ' '] + c.name@ + spaces(pad as int) + seq![' ', '-', ' ']
                    + about@);
            },
            None => {},
        }
        let done = trim_end(line.as_str());
        r.push(done);
        k = k + 1;
    }
    assert(string_views(r@) =~= spec_command_list_lines(commands@, option_view(query)));
    r
}

/// Whether a registered command is named exactly `name`.
pub open spec fn is_registered(commands: Seq<CommandInfo>, name: Seq<char>) -> bool {
    exists|i: int| 0 <= i < commands.len() && #[trigger] commands[i].name@ == name
}

/// The listing wrapped in a title line and a closing blank line.
pub open spec fn titled(title: Seq<char>, lines: Seq<Seq<char>>) -> Seq<Seq<char>> {
    seq![title] + lines + seq![Seq::<char>::empty()]
}

/// The reply to `help`: nothing when `command` is a registered name (its own long help is shown
/// instead); the matching commands, or a line saying none exists, for another name; all
/// commands without a name.
pub open spec fn spec_help_lines(commands: Seq<CommandInfo>, command: Option<Seq<char>>) -> Option<
    Seq<Seq<char>>,
> {
    match command {
        Some(c) => if is_registered(commands, c) {
            None
        } else {
            let lines = spec_command_list_lines(commands, Some(c));
            if lines.len() == 0 {
                Some(seq!["Command '"@ + c + "' does not exist"@])
            } else {
                Some(titled("Matching commands:"@, lines))
            }
        },
        None => Some(titled("Available commands:"@, spec_command_list_lines(commands, None))),
    }
}

/// The reply to `list`: the commands matching `query` under "Matching commands:" when a query
/// is given, all commands under "Available commands:" otherwise.
pub open spec fn spec_list_lines(commands: Seq<CommandInfo>, query: Option<Seq<char>>) -> Seq<
    Seq<char>,
> {
    titled(
        if query is Some {
            "Matching commands:"@
        } else {
            "Available commands:"@
        },
        spec_command_list_lines(commands, query),
    )
}

fn titled_lines(title: &str, lines: Vec<String>) -> (r: Vec<String>)
    ensures
        string_views(r@) == titled(title@, string_views(lines@)),
{
    let mut r: Vec<String> = Vec::new();
    r.push(String::from_str(title));
    let mut i: usize = 0;
    while i < lines.len()
        invariant
            i <= lines@.len(),
            r@.len() == i + 1,
            string_views(r@) == seq![title@] + string_views(lines@).take(i as int),
        decreases lines@.len() - i,
    {
        let ghost before = r@;
        let line = lines[i].clone();
        r.push(line);
        assert(r@ == before.push(line));
        let ghost want = seq![title@] + string_views(lines@).take(i + 1);
        assert forall|j: int| 0 <= j < r@.len() implies string_views(r@)[j] == want[j] by {
            if j < before.len() {
                assert(string_views(r@)[j] == string_views(before)[j]);
                assert(string_views(before)[j] == (seq![title@] + string_views(lines@).take(
                    i as int,
                ))[j]);
            }
        }
        assert(string_views(r@) =~= want);
        i = i + 1;
    }
    r.push(String::new());
    assert(string_views(lines@).take(lines@.len() as int) =~= string_views(lines@));
    assert(string_views(r@) =~= titled(title@, string_views(lines@)));
    r
}

/// The lines `help` replies with; `None` when `command` names a registered command, whose long
/// help is shown instead.
pub fn help_lines(commands: &[CommandInfo], command: Option<&str>) -> (r: Option<Vec<String>>)
    ensures
        match r {
            Some(lines) => spec_help_lines(commands@, option_view(command)) == Some(
                string_views(lines@),
            ),
            None => spec_help_lines(commands@, option_view(command)) is None,
        },
{
    match command {
        Some(name) => {
            let wanted = String::from_str(name);
            let mut i: usize = 0;
            while i < commands.len()
                invariant
                    wanted@ == name@,
                    command == Some(name),
                    i <= commands@.len(),
                    forall|j: int| 0 <= j < i ==> #[trigger] commands@[j].name@ != name@,
                decreases commands@.len() - i,
            {
                if commands[i].name == wanted {
                    assert(commands@[i as int].name@ == name@);
                    return None;
                }
                i = i + 1;
            }
            let lines = command_list_lines(commands, Some(name));
            if lines.len() == 0 {
                let mut line = String::from_str("Command '");
                line.append(name);
                line.append("' does not exist");
                let r = vec![line];
                assert(string_views(r@) =~= seq![line@]);
                Some(r)
            } else {
                Some(titled_lines("Matching commands:", lines))
            }
        },
        None => Some(titled_lines("Available commands:", command_list_lines(commands, None))),
    }
}

/// The lines `list` replies with.
pub fn list_lines(commands: &[CommandInfo], query: Option<&str>) -> (r: Vec<String>)
    ensures
        string_views(r@) == spec_list_lines(commands@, option_view(query)),
{
    let lines = command_list_lines(commands, query);
    if query.is_some() {
        titled_lines("Matching commands:", lines)
    } else {
        titled_lines("Available commands:", lines)
    }
}

} // verus!
