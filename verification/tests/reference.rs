use workset::completion::{complete_bash, complete_fish, Offer};
use workset::metadata::{format_elapsed, format_time_ago, format_time_ago_verbose};
use workset::pattern::RepoPattern;
use workset::submodule::parse_gitmodules;
use workset::timestamp::Timestamp;
use workset::tree::{
    build_library_tree, build_tree, count_repos_in_trees, flatten_trees, toggle_node_at_path,
    RepoInfo, RepoOperationStatus, TreeNode,
};

/// A small generator of repeatable numbers.
struct Numbers(u64);

impl Numbers {
    fn next(&mut self, below: u64) -> u64 {
        self.0 ^= self.0 << 13;
        self.0 ^= self.0 >> 7;
        self.0 ^= self.0 << 17;
        self.0 % below
    }
}

/// The plain model of a node that the tests build their expectations with.
#[derive(Clone, Debug, PartialEq)]
struct Node {
    name: String,
    repo: Option<String>,
    children: Vec<Node>,
    expanded: bool,
}

fn model_of(node: &TreeNode) -> Node {
    Node {
        name: node.name.clone(),
        repo: node.repo_info.as_ref().map(|r| r.display_name.clone()),
        children: node.children.iter().map(model_of).collect(),
        expanded: node.expanded,
    }
}

fn models_of(forest: &[TreeNode]) -> Vec<Node> {
    forest.iter().map(model_of).collect()
}

fn expected_forest(mut repos: Vec<(String, Option<u64>)>) -> Vec<Node> {
    repos.sort_by(|a, b| match (a.1, b.1) {
        (Some(a_time), Some(b_time)) => b_time.cmp(&a_time).then_with(|| a.0.cmp(&b.0)),
        (Some(_), None) => std::cmp::Ordering::Less,
        (None, Some(_)) => std::cmp::Ordering::Greater,
        (None, None) => a.0.cmp(&b.0),
    });
    let mut roots: Vec<Node> = Vec::new();
    for (name, _) in repos {
        let parts: Vec<&str> = name.split('/').collect();
        let mut level = &mut roots;
        for (i, part) in parts.iter().enumerate() {
            let is_last = i == parts.len() - 1;
            let at = match level.iter().position(|n| n.name == *part) {
                Some(at) => {
                    if is_last {
                        level[at].repo = Some(name.clone());
                    }
                    at
                }
                None => {
                    level.push(Node {
                        name: if is_last {
                            name.split('/').next_back().unwrap_or(&name).to_string()
                        } else {
                            part.to_string()
                        },
                        repo: if is_last { Some(name.clone()) } else { None },
                        children: Vec::new(),
                        expanded: !is_last,
                    });
                    level.len() - 1
                }
            };
            level = &mut level[at].children;
        }
    }
    roots
}

fn expected_rows(
    node: &Node,
    depth: usize,
    index_path: Vec<usize>,
    parent: &str,
    rows: &mut Vec<(String, usize, Vec<usize>, String)>,
) {
    let full_path = match &node.repo {
        Some(name) => name.clone(),
        None if parent.is_empty() => node.name.clone(),
        None => format!("{}/{}", parent, node.name),
    };
    rows.push((node.name.clone(), depth, index_path.clone(), full_path.clone()));
    if node.expanded {
        for (i, child) in node.children.iter().enumerate() {
            let mut child_path = index_path.clone();
            child_path.push(i);
            expected_rows(child, depth + 1, child_path, &full_path, rows);
        }
    }
}

fn expected_flat(forest: &[Node]) -> Vec<(String, usize, Vec<usize>, String)> {
    let mut rows = Vec::new();
    for (i, node) in forest.iter().enumerate() {
        expected_rows(node, 0, vec![i], "", &mut rows);
    }
    rows
}

fn expected_toggle(forest: &mut [Node], path: &[usize]) {
    let Some((first, rest)) = path.split_first() else {
        return;
    };
    let Some(node) = forest.get_mut(*first) else {
        return;
    };
    if rest.is_empty() {
        if !node.children.is_empty() {
            node.expanded = !node.expanded;
        }
    } else {
        expected_toggle(&mut node.children, rest);
    }
}

fn expected_count(forest: &[Node]) -> usize {
    forest.iter().map(|n| usize::from(n.repo.is_some()) + expected_count(&n.children)).sum()
}

fn random_repos(numbers: &mut Numbers) -> Vec<(String, Option<u64>)> {
    let segments = ["a", "b", "c", "github.com", "x", ""];
    let count = numbers.next(9);
    (0..count)
        .map(|_| {
            let depth = 1 + numbers.next(4);
            let name: Vec<&str> =
                (0..depth).map(|_| segments[numbers.next(segments.len() as u64) as usize]).collect();
            let time = if numbers.next(3) == 0 { None } else { Some(numbers.next(5)) };
            (name.join("/"), time)
        })
        .collect()
}

fn record(name: &str, time: Option<u64>) -> RepoInfo {
    RepoInfo {
        path: format!("/ws/{}", name),
        display_name: name.to_string(),
        is_clean: true,
        modification_time: time.map(|secs| Timestamp { secs: secs as i64, nanos: 0 }),
        size_bytes: None,
        operation_status: RepoOperationStatus::Idle,
    }
}

fn flat_names(forest: &[TreeNode]) -> Vec<(String, usize, Vec<usize>, String)> {
    flatten_trees(forest)
        .into_iter()
        .map(|(node, depth, index_path, full_path)| (node.name, depth, index_path, full_path))
        .collect()
}

#[test]
fn forests_are_as_the_plain_model_builds_them() {
    let mut numbers = Numbers(0x2545f4914f6cdd1d);
    for _ in 0..3000 {
        let repos = random_repos(&mut numbers);
        let mut forest = build_tree(repos.iter().map(|(n, t)| record(n, *t)).collect());
        let mut expected = expected_forest(repos.clone());
        assert_eq!(models_of(&forest), expected, "forest of {:?}", repos);
        assert_eq!(flat_names(&forest), expected_flat(&expected));
        assert_eq!(count_repos_in_trees(&forest), expected_count(&expected));
        for _ in 0..4 {
            let length = numbers.next(4);
            let path: Vec<usize> = (0..length).map(|_| numbers.next(3) as usize).collect();
            toggle_node_at_path(&mut forest, &path);
            expected_toggle(&mut expected, &path);
            assert_eq!(models_of(&forest), expected, "toggle at {:?}", path);
            assert_eq!(flat_names(&forest), expected_flat(&expected));
        }
    }
}

#[test]
fn library_forests_are_as_the_plain_model_builds_them() {
    let mut numbers = Numbers(0x9e3779b97f4a7c15);
    for _ in 0..2000 {
        let library = random_repos(&mut numbers);
        let workspace = random_repos(&mut numbers);
        let held: std::collections::HashSet<&str> =
            workspace.iter().map(|(n, _)| n.as_str()).collect();
        let kept: Vec<(String, Option<u64>)> =
            library.iter().filter(|(n, _)| !held.contains(n.as_str())).cloned().collect();
        let workspace_records: Vec<RepoInfo> =
            workspace.iter().map(|(n, t)| record(n, *t)).collect();
        let forest = build_library_tree(
            library.iter().map(|(n, t)| record(n, *t)).collect(),
            &workspace_records,
        );
        assert_eq!(models_of(&forest), expected_forest(kept));
    }
}

fn expected_pattern(path: &str) -> (Option<String>, String) {
    let parts: Vec<&str> = path.splitn(2, '/').collect();
    if parts.len() == 2 && parts[0].contains('.') {
        (Some(parts[0].to_string()), parts[1].to_string())
    } else {
        (None, path.to_string())
    }
}

#[test]
fn patterns_are_as_the_plain_model_parses_them() {
    let mut numbers = Numbers(0xd1b54a32d192ed03);
    let pieces = ["a", ".", "/", "github.com", "é", "", "b.c", "//"];
    for _ in 0..5000 {
        let count = numbers.next(6);
        let text: String =
            (0..count).map(|_| pieces[numbers.next(pieces.len() as u64) as usize]).collect();
        let pattern = RepoPattern::parse(&text);
        assert_eq!((pattern.provider.clone(), pattern.path.clone()), expected_pattern(&text));
        let expected_full = match expected_pattern(&text) {
            (Some(provider), path) => format!("{}/{}", provider, path),
            (None, path) => path,
        };
        assert_eq!(pattern.full_path(), expected_full);
    }
}

fn expected_submodules(content: &str) -> Vec<(String, String, String)> {
    let mut submodules = Vec::new();
    let mut current_name: Option<String> = None;
    let mut current_path: Option<String> = None;
    let mut current_url: Option<String> = None;
    for line in content.lines() {
        let line = line.trim();
        if line.is_empty() || line.starts_with('#') || line.starts_with(';') {
            continue;
        }
        if line.starts_with('[') && line.ends_with(']') {
            if let (Some(name), Some(path), Some(url)) =
                (current_name.take(), current_path.take(), current_url.take())
            {
                submodules.push((name, path, url));
            }
            if let (Some(start), Some(end)) = (line.find('"'), line.rfind('"')) {
                if start < end {
                    current_name = Some(line[start + 1..end].to_string());
                }
            }
            continue;
        }
        if let Some(eq_pos) = line.find('=') {
            let key = line[..eq_pos].trim();
            let value = line[eq_pos + 1..].trim();
            match key {
                "path" => current_path = Some(value.to_string()),
                "url" => current_url = Some(value.to_string()),
                _ => {}
            }
        }
    }
    if let (Some(name), Some(path), Some(url)) = (current_name, current_path, current_url) {
        submodules.push((name, path, url));
    }
    submodules
}

#[test]
fn gitmodules_are_as_the_plain_model_parses_them() {
    let mut numbers = Numbers(0x94d049bb133111eb);
    let pieces = [
        "[submodule \"a\"]",
        "[submodule \"b/c\"]",
        "[core]",
        "[\"]",
        "[x\"y\"z\"w]",
        "\tpath = p",
        "path=q/r",
        " url = https://h/u.git ",
        "url=",
        "branch = main",
        "# path = no",
        "; url = no",
        "",
        "   ",
        "path",
        "= x",
        "[broken",
        "é = ü",
    ];
    let ends = ["\n", "\r\n", "\n\n"];
    for _ in 0..5000 {
        let count = numbers.next(10);
        let mut content = String::new();
        for _ in 0..count {
            content.push_str(pieces[numbers.next(pieces.len() as u64) as usize]);
            content.push_str(ends[numbers.next(ends.len() as u64) as usize]);
        }
        if numbers.next(2) == 0 {
            content.push_str(pieces[numbers.next(pieces.len() as u64) as usize]);
        }
        let found: Vec<(String, String, String)> = parse_gitmodules(&content)
            .into_iter()
            .map(|s| {
                assert!(!s.initialized);
                (s.name, s.path, s.url)
            })
            .collect();
        assert_eq!(found, expected_submodules(&content), "content {:?}", content);
    }
}

fn expected_offer(line: &str, fish: bool, in_workspace: bool) -> &'static str {
    let words: Vec<&str> = line.split_whitespace().collect();
    let first = if fish {
        words.len() <= 1 || (words.len() == 2 && !line.ends_with(' '))
    } else {
        words.len() <= 1
    };
    if first {
        if in_workspace {
            "subcommands"
        } else {
            "init"
        }
    } else if in_workspace {
        if *words.get(1).unwrap_or(&"") == "restore" {
            "library"
        } else {
            "workspace"
        }
    } else {
        "nothing"
    }
}

#[test]
fn completions_are_as_the_plain_model_decides_them() {
    let name = |offer: Offer| match offer {
        Offer::Subcommands => "subcommands",
        Offer::Init => "init",
        Offer::LibraryEntries => "library",
        Offer::WorkspaceRepos => "workspace",
        Offer::Nothing => "nothing",
    };
    let mut numbers = Numbers(0xbf58476d1ce4e5b9);
    let pieces = ["workset", "restore", "drop", " ", "  ", "\t", "re", "x/y", "", "\u{a0}"];
    for _ in 0..5000 {
        let count = numbers.next(7);
        let line: String =
            (0..count).map(|_| pieces[numbers.next(pieces.len() as u64) as usize]).collect();
        for in_workspace in [true, false] {
            assert_eq!(
                name(complete_bash(&line, in_workspace)),
                expected_offer(&line, false, in_workspace),
                "bash {:?}",
                line
            );
            assert_eq!(
                name(complete_fish(&line, in_workspace)),
                expected_offer(&line, true, in_workspace),
                "fish {:?}",
                line
            );
        }
    }
}

fn expected_age(seconds: u64) -> String {
    if seconds < 60 {
        format!("{}s", seconds)
    } else if seconds < 3600 {
        format!("{}m", (seconds + 30) / 60)
    } else if seconds < 86400 {
        format!("{}h", (seconds + 1800) / 3600)
    } else if seconds < 2_592_000 {
        format!("{}d", (seconds + 43200) / 86400)
    } else if seconds < 31_536_000 {
        format!("{}mo", (seconds + 1_296_000) / 2_592_000)
    } else {
        format!("{}y", (seconds as u128 + 15_768_000) / 31_536_000)
    }
}

#[test]
fn ages_are_as_the_plain_model_renders_them() {
    let mut numbers = Numbers(0x853c49e6748fea9b);
    let mut samples: Vec<u64> = (0..4000).collect();
    for edge in [3600u64, 86400, 2_592_000, 31_536_000, u64::MAX] {
        for delta in 0..50 {
            samples.push(edge.saturating_sub(delta));
            samples.push(edge.saturating_add(delta));
        }
    }
    for _ in 0..20000 {
        let shift = numbers.next(64);
        samples.push(numbers.next(u64::MAX) >> shift);
    }
    for seconds in samples {
        assert_eq!(format_elapsed(seconds), expected_age(seconds));
        if seconds < i64::MAX as u64 {
            let then = Timestamp { secs: 1000, nanos: 5 };
            let now = Timestamp { secs: 1000 + seconds as i64, nanos: 5 };
            assert_eq!(format_time_ago(then, now), expected_age(seconds));
            assert_eq!(
                format_time_ago_verbose(then, now),
                format!("{} ago", expected_age(seconds))
            );
        }
    }
}
