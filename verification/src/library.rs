//! The library store: what is written into a repository's configuration
//! when it is stored and when it is restored, and which entries a request
//! to restore means.

use crate::text::{
    chars_of, contains, find, find_char, find_from, find_sub, first_from, join, joined,
    lemma_find_from, lines, lines_of, occurs_at, push_all, slice_of, starts_with, str_contains,
    string_from, trim, trimmed, views,
};
use vstd::prelude::*;

verus! {

/// The line that marks a repository as bare.
pub open spec fn bare_line() -> Seq<char> {
    "\tbare = true"@
}

/// `line`, or the bare flag in its place where `line` sets `bare`.
pub open spec fn line_with_bare_flag(line: Seq<char>) -> Seq<char> {
    if "bare"@.is_prefix_of(trim(line)) {
        bare_line()
    } else {
        line
    }
}

/// The configuration `config` with `core.bare` set to true.
///
/// Where `config` has a `[core]` section and a `bare` setting, every line
/// that sets `bare` becomes the bare flag and the lines are joined by line
/// feeds; where it has the section without the setting, the flag is put
/// right after the first `[core]`; where it has no such section, the
/// section with the flag is added at the end.
pub open spec fn bare_config(config: Seq<char>) -> Seq<char> {
    if contains(config, "[core]"@) {
        if contains(config, "bare ="@) || contains(config, "bare="@) {
            join(lines(config).map_values(|l: Seq<char>| line_with_bare_flag(l)), seq!['\n'])
        } else {
            let at = find(config, "[core]"@);
            config.take(at) + "[core]\n\tbare = true"@ + config.skip(at + "[core]"@.len())
        }
    } else {
        config + "\n[core]\n\tbare = true\n"@
    }
}

/// Rewrites a repository's configuration so that it is marked as bare.
pub fn with_bare_flag(config: &str) -> (out: String)
    ensures
        out@ == bare_config(config@),
{
    let text = chars_of(config);
    let core = chars_of("[core]");
    let mut out: Vec<char> = Vec::new();
    match find_sub(&text, &core, 0) {
        Some(at) => {
            let spaced = chars_of("bare =");
            let tight = chars_of("bare=");
            if find_sub(&text, &spaced, 0).is_some() || find_sub(&text, &tight, 0).is_some() {
                let key = chars_of("bare");
                let all = lines_of(&text);
                let mut changed: Vec<Vec<char>> = Vec::new();
                let mut i: usize = 0;
                let ghost wanted = lines(text@).map_values(|l: Seq<char>| line_with_bare_flag(l));
                while i < all.len()
                    invariant
                        i <= all.len(),
                        views(all@) == lines(text@),
                        key@ == "bare"@,
                        wanted == lines(text@).map_values(|l: Seq<char>| line_with_bare_flag(l)),
                        views(changed@) == wanted.take(i as int),
                    decreases all.len() - i,
                {
                    let stripped = trimmed(&all[i]);
                    let line = if starts_with(&stripped, &key) {
                        chars_of("\tbare = true")
                    } else {
                        slice_of(&all[i], 0, all[i].len())
                    };
                    proof {
                        assert(views(all@)[i as int] == all@[i as int]@);
                        assert(all@[i as int]@.subrange(0, all@[i as int]@.len() as int)
                            == all@[i as int]@);
                        assert(line@ == wanted[i as int]);
                        crate::text::lemma_views_push(changed@, line);
                        assert(wanted.take(i + 1) =~= wanted.take(i as int).push(wanted[i as int]));
                    }
                    changed.push(line);
                    i += 1;
                }
                let feed: Vec<char> = vec!['\n'];
                proof {
                    assert(wanted.take(all@.len() as int) =~= wanted);
                    assert(feed@ =~= seq!['\n']);
                }
                out = joined(&changed, &feed);
            } else {
                let head = slice_of(&text, 0, at);
                let tail = slice_of(&text, at + core.len(), text.len());
                let flagged = chars_of("[core]\n\tbare = true");
                push_all(&mut out, &head);
                push_all(&mut out, &flagged);
                push_all(&mut out, &tail);
                proof {
                    assert(text@.subrange(0, at as int) == text@.take(at as int));
                    assert(text@.subrange(at + core@.len(), text@.len() as int) == text@.skip(
                        at + core@.len(),
                    ));
                    assert(out@ =~= text@.take(at as int) + flagged@ + text@.skip(
                        at + core@.len(),
                    ));
                }
            }
        },
        None => {
            let section = chars_of("\n[core]\n\tbare = true\n");
            push_all(&mut out, &text);
            push_all(&mut out, &section);
            assert(out@ =~= text@ + section@);
        },
    }
    string_from(&out)
}

/// A remote of a repository: its name and the URL it fetches from.
#[derive(Debug, Clone, PartialEq, Eq)]
pub struct RemoteUrl {
    pub name: String,
    pub url: String,
}

/// The header of the configuration section of the remote `name`.
pub open spec fn remote_header(name: Seq<char>) -> Seq<char> {
    "[remote \""@ + name + "\"]"@
}

/// `config` with a line feed behind it, unless it is empty or ends in one.
pub open spec fn line_ended(config: Seq<char>) -> Seq<char> {
    if config.len() > 0 && config.last() != '\n' {
        config.push('\n')
    } else {
        config
    }
}

/// The configuration section of the remote `name` with the URL `url`: the
/// header and the line that sets the URL.
pub open spec fn remote_section(name: Seq<char>, url: Seq<char>) -> Seq<char> {
    remote_header(name) + "\n\turl = "@ + url + seq!['\n']
}

/// The configuration `config` with a section for the remote `name` with
/// the URL `url` at its end.
pub open spec fn section_added(config: Seq<char>, name: Seq<char>, url: Seq<char>) -> Seq<char> {
    line_ended(config) + remote_section(name, url)
}

/// The configuration lists the remote `name` with the URL `url`: it holds
/// the header of the remote, and behind the first such header the URL.
pub open spec fn lists_remote(config: Seq<char>, name: Seq<char>, url: Seq<char>) -> bool {
    let at = find(config, remote_header(name));
    at >= 0 && find_from(config, url, at + remote_header(name).len()) >= 0
}

/// The configuration `config` with the URL of the remote `name` set to
/// `url`. Where it has a section of that remote, the text from the first
/// `url = ` after the header up to the end of its line becomes a tab,
/// `url = ` and `url`; without a URL after the header, or without a line
/// feed after that URL, `config` stays as it is. Where it has no section of
/// that remote, the section is added at the end.
pub open spec fn remote_url_set(config: Seq<char>, name: Seq<char>, url: Seq<char>) -> Seq<char> {
    let section = find(config, remote_header(name));
    if section < 0 {
        section_added(config, name, url)
    } else {
        let key = find_from(config, "url = "@, section);
        if key < 0 {
            config
        } else {
            let end = first_from(config, '\n', key);
            if end >= config.len() {
                config
            } else {
                config.take(key) + "\turl = "@ + url + config.skip(end)
            }
        }
    }
}

/// The configuration `config` with the URL of each of `remotes` set, one
/// after the other.
pub open spec fn remote_urls_replaced(config: Seq<char>, remotes: Seq<RemoteUrl>) -> Seq<char>
    decreases remotes.len(),
{
    if remotes.len() == 0 {
        config
    } else {
        remote_urls_replaced(
            remote_url_set(config, remotes[0].name@, remotes[0].url@),
            remotes.drop_first(),
        )
    }
}

/// The configuration `config` with a section added at its end for each of
/// the first `n` of `remotes` that it does not list, one after the other.
pub open spec fn remotes_ensured(config: Seq<char>, remotes: Seq<RemoteUrl>, n: int) -> Seq<char>
    decreases n,
{
    if n <= 0 || n > remotes.len() {
        config
    } else {
        let before = remotes_ensured(config, remotes, n - 1);
        let remote = remotes[n - 1];
        if lists_remote(before, remote.name@, remote.url@) {
            before
        } else {
            section_added(before, remote.name@, remote.url@)
        }
    }
}

/// The configuration of a restored repository with each of `remotes` in
/// it: first the URL of each is set, one after the other; then each that
/// the text still does not list gets a section at the end.
pub open spec fn remote_urls_set(config: Seq<char>, remotes: Seq<RemoteUrl>) -> Seq<char> {
    remotes_ensured(remote_urls_replaced(config, remotes), remotes, remotes.len() as int)
}

/// A text that occurs in `s` at `at` occurs there in `s` with more behind
/// it, and no earlier than where it first occurs behind `from`.
proof fn lemma_found_in_longer(s: Seq<char>, more: Seq<char>, pat: Seq<char>, from: int, at: int)
    requires
        0 <= from <= at,
        occurs_at(s, pat, at),
    ensures
        0 <= find_from(s + more, pat, from) <= at,
        find_from(s, pat, from) >= 0,
        find_from(s + more, pat, from) == find_from(s, pat, from),
{
    let longer = s + more;
    assert(longer.subrange(at, at + pat.len()) =~= s.subrange(at, at + pat.len()));
    assert(occurs_at(longer, pat, at));
    lemma_find_from(longer, pat, from);
    lemma_find_from(s, pat, from);
    let short = find_from(s, pat, from);
    let long = find_from(longer, pat, from);
    assert(short >= 0 && short <= at);
    assert(longer.subrange(short, short + pat.len()) =~= s.subrange(short, short + pat.len()));
    assert(occurs_at(longer, pat, short));
    assert(long <= short);
    assert(s.subrange(long, long + pat.len()) =~= longer.subrange(long, long + pat.len()));
    assert(occurs_at(s, pat, long));
}

/// A configuration to which the section of a remote was added lists the
/// remote.
pub proof fn lemma_added_section_is_listed(config: Seq<char>, name: Seq<char>, url: Seq<char>)
    ensures
        lists_remote(section_added(config, name, url), name, url),
{
    let header = remote_header(name);
    let base = line_ended(config);
    let after = section_added(config, name, url);
    let at = base.len() as int;
    let url_at = at + header.len() + "\n\turl = "@.len();
    assert(after.subrange(at, at + header.len()) =~= header);
    assert(occurs_at(after, header, at));
    assert(after.subrange(url_at, url_at + url.len()) =~= url);
    assert(occurs_at(after, url, url_at));
    lemma_find_from(after, header, 0);
    let first = find(after, header);
    assert(0 <= first <= at);
    lemma_find_from(after, url, first + header.len());
}

/// A configuration that lists a remote still lists it with more text
/// behind it.
pub proof fn lemma_listed_stays_listed(
    config: Seq<char>,
    more: Seq<char>,
    name: Seq<char>,
    url: Seq<char>,
)
    requires
        lists_remote(config, name, url),
    ensures
        lists_remote(config + more, name, url),
{
    let header = remote_header(name);
    let at = find(config, header);
    lemma_find_from(config, header, 0);
    lemma_found_in_longer(config, more, header, 0, at);
    let behind = at + header.len();
    let url_at = find_from(config, url, behind);
    lemma_find_from(config, url, behind);
    lemma_found_in_longer(config, more, url, behind, url_at);
}

/// Once a remote is listed, ensuring further remotes keeps it listed.
proof fn lemma_ensured_keeps(
    config: Seq<char>,
    remotes: Seq<RemoteUrl>,
    from: int,
    to: int,
    name: Seq<char>,
    url: Seq<char>,
)
    requires
        0 <= from <= to <= remotes.len(),
        lists_remote(remotes_ensured(config, remotes, from), name, url),
    ensures
        lists_remote(remotes_ensured(config, remotes, to), name, url),
    decreases to - from,
{
    if from < to {
        lemma_ensured_keeps(config, remotes, from, to - 1, name, url);
        let before = remotes_ensured(config, remotes, to - 1);
        let remote = remotes[to - 1];
        if !lists_remote(before, remote.name@, remote.url@) {
            let more = line_ended(before).skip(before.len() as int) + remote_section(
                remote.name@,
                remote.url@,
            );
            assert(section_added(before, remote.name@, remote.url@) =~= before + more);
            lemma_listed_stays_listed(before, more, name, url);
        }
    }
}

/// The configuration that restoring writes lists every remote that it was
/// given: it holds the header of each, and behind the header its URL.
pub proof fn lemma_remotes_are_listed(config: Seq<char>, remotes: Seq<RemoteUrl>, i: int)
    requires
        0 <= i < remotes.len(),
    ensures
        lists_remote(remote_urls_set(config, remotes), remotes[i].name@, remotes[i].url@),
{
    let replaced = remote_urls_replaced(config, remotes);
    let before = remotes_ensured(replaced, remotes, i);
    if !lists_remote(before, remotes[i].name@, remotes[i].url@) {
        lemma_added_section_is_listed(before, remotes[i].name@, remotes[i].url@);
    }
    lemma_ensured_keeps(
        replaced,
        remotes,
        i + 1,
        remotes.len() as int,
        remotes[i].name@,
        remotes[i].url@,
    );
}

/// The header of the section of the remote `name`.
fn header_of(name: &str) -> (header: Vec<char>)
    ensures
        header@ == remote_header(name@),
{
    let mut header = chars_of("[remote \"");
    let name_chars = chars_of(name);
    let close = chars_of("\"]");
    push_all(&mut header, &name_chars);
    push_all(&mut header, &close);
    header
}

/// Adds the section of a remote at the end of a configuration.
pub fn with_remote_section(config: &Vec<char>, name: &str, url: &str) -> (out: Vec<char>)
    ensures
        out@ == section_added(config@, name@, url@),
{
    let mut out = slice_of(config, 0, config.len());
    assert(config@.subrange(0, config@.len() as int) == config@);
    if config.len() > 0 && config[config.len() - 1] != '\n' {
        out.push('\n');
    }
    let header = header_of(name);
    let setting = chars_of("\n\turl = ");
    let url_chars = chars_of(url);
    push_all(&mut out, &header);
    push_all(&mut out, &setting);
    push_all(&mut out, &url_chars);
    out.push('\n');
    assert(out@ =~= section_added(config@, name@, url@));
    out
}

/// Whether a configuration lists a remote with its URL.
pub fn is_remote_listed(config: &Vec<char>, name: &str, url: &str) -> (r: bool)
    ensures
        r == lists_remote(config@, name@, url@),
{
    let header = header_of(name);
    match find_sub(config, &header, 0) {
        Some(at) => {
            let url_chars = chars_of(url);
            find_sub(config, &url_chars, at + header.len()).is_some()
        },
        None => false,
    }
}

/// Sets the URL of one remote in a configuration.
pub fn with_remote_url(config: &Vec<char>, name: &str, url: &str) -> (out: Vec<char>)
    ensures
        out@ == remote_url_set(config@, name@, url@),
{
    let header = header_of(name);
    let keep = slice_of(config, 0, config.len());
    assert(config@.subrange(0, config@.len() as int) == config@);
    let section = match find_sub(config, &header, 0) {
        Some(at) => at,
        None => {
            return with_remote_section(config, name, url);
        },
    };
    let key_text = chars_of("url = ");
    let key = match find_sub(config, &key_text, section) {
        Some(at) => at,
        None => {
            return keep;
        },
    };
    let end = find_char(config, '\n', key);
    if end >= config.len() {
        return keep;
    }
    let mut out = slice_of(config, 0, key);
    let setting = chars_of("\turl = ");
    let url_chars = chars_of(url);
    let tail = slice_of(config, end, config.len());
    push_all(&mut out, &setting);
    push_all(&mut out, &url_chars);
    push_all(&mut out, &tail);
    proof {
        assert(config@.subrange(0, key as int) == config@.take(key as int));
        assert(config@.subrange(end as int, config@.len() as int) == config@.skip(end as int));
    }
    out
}

/// Rewrites the configuration of a restored repository so that it lists
/// each of `remotes` with the URL that it had before the repository was
/// stored: the remote of the fresh copy gets its URL back, and each remote
/// that the fresh copy lacks gets its section.
pub fn with_remote_urls(config: &str, remotes: &Vec<RemoteUrl>) -> (out: String)
    ensures
        out@ == remote_urls_set(config@, remotes@),
        forall|i: int|
            0 <= i < remotes.len() ==> lists_remote(
                out@,
                (#[trigger] remotes@[i]).name@,
                remotes@[i].url@,
            ),
{
    let mut text = chars_of(config);
    let mut i: usize = 0;
    assert(remotes@.skip(0) == remotes@);
    while i < remotes.len()
        invariant
            i <= remotes.len(),
            remote_urls_replaced(config@, remotes@) == remote_urls_replaced(
                text@,
                remotes@.skip(i as int),
            ),
        decreases remotes.len() - i,
    {
        assert(remotes@.skip(i as int).drop_first() == remotes@.skip(i + 1));
        text = with_remote_url(&text, remotes[i].name.as_str(), remotes[i].url.as_str());
        i += 1;
    }
    let ghost replaced = text@;
    let mut k: usize = 0;
    while k < remotes.len()
        invariant
            k <= remotes.len(),
            text@ == remotes_ensured(replaced, remotes@, k as int),
        decreases remotes.len() - k,
    {
        if !is_remote_listed(&text, remotes[k].name.as_str(), remotes[k].url.as_str()) {
            text = with_remote_section(&text, remotes[k].name.as_str(), remotes[k].url.as_str());
        }
        k += 1;
    }
    proof {
        assert forall|i: int| 0 <= i < remotes.len() implies lists_remote(
            text@,
            (#[trigger] remotes@[i]).name@,
            remotes@[i].url@,
        ) by {
            lemma_remotes_are_listed(config@, remotes@, i);
        }
    }
    string_from(&text)
}

/// The entries among `entries` whose key holds `wanted`, in their order.
pub open spec fn entries_matching(entries: Seq<String>, wanted: Seq<char>) -> Seq<String> {
    entries.filter(|e: String| contains(e@, wanted))
}

/// The library entries that a request to restore `wanted` means: those
/// whose key holds `wanted` somewhere.
pub fn matching_entries(entries: &Vec<String>, wanted: &str) -> (found: Vec<String>)
    ensures
        found@ == entries_matching(entries@, wanted@),
{
    let mut found: Vec<String> = Vec::new();
    let mut i: usize = 0;
    let ghost keep = |e: String| contains(e@, wanted@);
    assert(entries@.take(0) =~= Seq::<String>::empty());
    while i < entries.len()
        invariant
            i <= entries.len(),
            keep == |e: String| contains(e@, wanted@),
            found@ == entries@.take(i as int).filter(keep),
        decreases entries.len() - i,
    {
        proof {
            assert(entries@.take(i + 1).drop_last() =~= entries@.take(i as int));
            reveal(Seq::filter);
        }
        if str_contains(entries[i].as_str(), wanted) {
            found.push(entries[i].clone());
        }
        i += 1;
    }
    assert(entries@.take(entries@.len() as int) =~= entries@);
    found
}

} // verus!
