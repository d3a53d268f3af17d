//! Submodule declarations, as a repository's `.gitmodules` file lists them.

use crate::text::{
    chars_of, find_char, first_index, last_index, lemma_first_from, lemma_last_before, lines,
    lines_of, rfind_char, same_chars, slice_of, string_from, trim, trimmed, views,
};
use vstd::prelude::*;

verus! {

/// A submodule of a repository.
#[derive(Debug, Clone)]
pub struct SubmoduleInfo {
    /// The name in the section header.
    pub name: String,
    /// The path of the submodule, relative to the repository.
    pub path: String,
    /// The URL it is cloned from.
    pub url: String,
    /// Whether the submodule is checked out. The parser cannot know and
    /// says `false`; whoever looks at the working tree sets it.
    pub initialized: bool,
}

/// A submodule declaration as plain values.
pub struct SubmoduleView {
    pub name: Seq<char>,
    pub path: Seq<char>,
    pub url: Seq<char>,
    pub initialized: bool,
}

impl View for SubmoduleInfo {
    type V = SubmoduleView;

    open spec fn view(&self) -> SubmoduleView {
        SubmoduleView {
            name: self.name@,
            path: self.path@,
            url: self.url@,
            initialized: self.initialized,
        }
    }
}

/// What the parser knows of the section that it is in.
pub struct Section {
    pub name: Option<Seq<char>>,
    pub path: Option<Seq<char>>,
    pub url: Option<Seq<char>>,
}

/// A line that holds nothing: empty, or a comment.
pub open spec fn is_ignored(line: Seq<char>) -> bool {
    line.len() == 0 || line[0] == '#' || line[0] == ';'
}

/// A section header: a line in square brackets.
pub open spec fn is_header(line: Seq<char>) -> bool {
    line.len() > 0 && line[0] == '[' && line.last() == ']'
}

/// The name in a section header: what stands between the first and the
/// last double quote of the line, where these are two.
pub open spec fn header_name(line: Seq<char>) -> Option<Seq<char>> {
    let open = first_index(line, '"');
    let close = last_index(line, '"');
    if open < close {
        Some(line.subrange(open + 1, close))
    } else {
        None
    }
}

impl Section {
    /// A section of which nothing is known.
    pub open spec fn unknown() -> Section {
        Section { name: None, path: None, url: None }
    }

    /// The declaration that the section amounts to: one record where name,
    /// path and URL are all known, none otherwise.
    pub open spec fn record(self) -> Seq<SubmoduleView> {
        match (self.name, self.path, self.url) {
            (Some(name), Some(path), Some(url)) => seq![
                SubmoduleView { name, path, url, initialized: false },
            ],
            _ => Seq::empty(),
        }
    }

    /// The section after a line of the file, given without surrounding
    /// whitespace. A header begins a new section. A line `key = value`
    /// sets the path or the URL where the key is `path` or `url`. Every
    /// other line changes nothing.
    pub open spec fn after(self, line: Seq<char>) -> Section {
        if is_ignored(line) {
            self
        } else if is_header(line) {
            Section { name: header_name(line), path: None, url: None }
        } else {
            let eq = first_index(line, '=');
            if eq >= line.len() {
                self
            } else {
                let key = trim(line.take(eq));
                let value = trim(line.skip(eq + 1));
                if key == "path"@ {
                    Section { path: Some(value), ..self }
                } else if key == "url"@ {
                    Section { url: Some(value), ..self }
                } else {
                    self
                }
            }
        }
    }

    /// The records that a line completes: that of the section so far, where
    /// the line is a header.
    pub open spec fn closed_by(self, line: Seq<char>) -> Seq<SubmoduleView> {
        if !is_ignored(line) && is_header(line) {
            self.record()
        } else {
            Seq::empty()
        }
    }
}

/// The declarations in `rest`, the lines of a file from some line on, when
/// the parser is in `section`.
pub open spec fn declared_from(rest: Seq<Seq<char>>, section: Section) -> Seq<SubmoduleView>
    decreases rest.len(),
{
    if rest.len() == 0 {
        section.record()
    } else {
        let line = trim(rest[0]);
        section.closed_by(line) + declared_from(rest.drop_first(), section.after(line))
    }
}

/// The submodules that the text of a `.gitmodules` file declares, in the
/// order of their sections. A section header is a line in square brackets
/// and names the submodule between double quotes; `path = ..` and
/// `url = ..` lines follow it. A section that lacks the name, the path or
/// the URL declares nothing.
pub open spec fn declared(content: Seq<char>) -> Seq<SubmoduleView> {
    declared_from(lines(content), Section::unknown())
}

/// The view of an optional vector of characters.
pub open spec fn opt_view(v: Option<Vec<char>>) -> Option<Seq<char>> {
    match v {
        Some(chars) => Some(chars@),
        None => None,
    }
}

/// The views of the records.
pub open spec fn record_views(records: Seq<SubmoduleInfo>) -> Seq<SubmoduleView> {
    records.map_values(|r: SubmoduleInfo| r@)
}

/// Parses the text of a `.gitmodules` file.
pub fn parse_gitmodules(content: &str) -> (records: Vec<SubmoduleInfo>)
    ensures
        record_views(records@) == declared(content@),
        forall|i: int| 0 <= i < records.len() ==> !(#[trigger] records@[i]).initialized,
{
    let text = chars_of(content);
    let all = lines_of(&text);
    let mut records: Vec<SubmoduleInfo> = Vec::new();
    let mut name: Option<Vec<char>> = None;
    let mut path: Option<Vec<char>> = None;
    let mut url: Option<Vec<char>> = None;
    let path_key = chars_of("path");
    let url_key = chars_of("url");
    let mut i: usize = 0;
    proof {
        assert(views(all@).skip(0) == views(all@));
        assert(record_views(records@) =~= Seq::<SubmoduleView>::empty());
    }
    while i < all.len()
        invariant
            i <= all.len(),
            views(all@) == lines(content@),
            path_key@ == "path"@,
            url_key@ == "url"@,
            forall|k: int| 0 <= k < records.len() ==> !(#[trigger] records@[k]).initialized,
            declared(content@) == record_views(records@) + declared_from(
                views(all@).skip(i as int),
                Section { name: opt_view(name), path: opt_view(path), url: opt_view(url) },
            ),
        decreases all.len() - i,
    {
        let ghost section = Section {
            name: opt_view(name),
            path: opt_view(path),
            url: opt_view(url),
        };
        let ghost before = record_views(records@);
        let line = trimmed(&all[i]);
        proof {
            let rest = views(all@).skip(i as int);
            assert(rest[0] == all@[i as int]@);
            assert(rest.drop_first() == views(all@).skip(i + 1));
        }
        let n = line.len();
        if n == 0 || line[0] == '#' || line[0] == ';' {
            assert(before + Seq::<SubmoduleView>::empty() =~= before);
        } else if line[0] == '[' && line[n - 1] == ']' {
            match (name, path, url) {
                (Some(a), Some(b), Some(c)) => {
                    let record = SubmoduleInfo {
                        name: string_from(&a),
                        path: string_from(&b),
                        url: string_from(&c),
                        initialized: false,
                    };
                    proof {
                        assert(section.record() =~= seq![record@]);
                        assert(record_views(records@.push(record)) =~= before + section.record());
                    }
                    records.push(record);
                },
                _ => {
                    assert(before + section.record() =~= before);
                },
            }
            path = None;
            url = None;
            let open = find_char(&line, '"', 0);
            name = match rfind_char(&line, '"') {
                Some(close) => {
                    if open < close {
                        Some(slice_of(&line, open + 1, close))
                    } else {
                        None
                    }
                },
                None => None,
            };
            proof {
                lemma_first_from(line@, '"', 0);
                lemma_last_before(line@, '"', line@.len() as int);
                let after = section.after(line@);
                assert(opt_view(name) == after.name);
                assert(record_views(records@) + declared_from(
                    views(all@).skip(i + 1),
                    after,
                ) =~= before + (section.closed_by(line@) + declared_from(
                    views(all@).skip(i + 1),
                    after,
                )));
            }
        } else {
            let eq = find_char(&line, '=', 0);
            if eq < n {
                let key = trimmed(&slice_of(&line, 0, eq));
                let value = trimmed(&slice_of(&line, eq + 1, n));
                proof {
                    assert(line@.subrange(0, eq as int) == line@.take(eq as int));
                    assert(line@.subrange(eq + 1, n as int) == line@.skip(eq + 1));
                }
                if same_chars(&key, &path_key) {
                    path = Some(value);
                } else if same_chars(&key, &url_key) {
                    url = Some(value);
                }
            }
            assert(before + Seq::<SubmoduleView>::empty() =~= before);
        }
        i += 1;
    }
    proof {
        assert(views(all@).skip(all@.len() as int) =~= Seq::<Seq<char>>::empty());
    }
    let ghost section = Section { name: opt_view(name), path: opt_view(path), url: opt_view(url) };
    let ghost before = record_views(records@);
    match (name, path, url) {
        (Some(a), Some(b), Some(c)) => {
            let record = SubmoduleInfo {
                name: string_from(&a),
                path: string_from(&b),
                url: string_from(&c),
                initialized: false,
            };
            proof {
                assert(section.record() =~= seq![record@]);
                assert(record_views(records@.push(record)) =~= before + section.record());
            }
            records.push(record);
        },
        _ => {
            assert(before + section.record() =~= before);
        },
    }
    records
}

} // verus!
