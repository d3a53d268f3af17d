//! Which repositories a forest holds: building a forest from records loses
//! none of them and invents none.

use crate::text::{first_index, last_index, lemma_first_from, lemma_last_before, split};
use crate::tree::{
    built, directory_node, grown, inserted, last_segment, lemma_listing_sorts, listing,
    position_of, repo_count, repo_count_of, repo_node, repo_paths, repo_paths_of, RepoInfoView,
    TreeNodeView,
};
use vstd::prelude::*;

verus! {

/// The node or one below it is the repository with the display name
/// `name`.
pub open spec fn node_holds(node: TreeNodeView, name: Seq<char>) -> bool
    decreases node, 0nat,
{
    (node.repo_info is Some && node.repo_info.unwrap().display_name == name) || holds(
        node.children,
        node.children.len(),
        name,
    )
}

/// One of the first `n` of `nodes` holds the repository with the display
/// name `name`.
pub open spec fn holds(nodes: Seq<TreeNodeView>, n: nat, name: Seq<char>) -> bool
    decreases nodes, n,
{
    if n == 0 || n > nodes.len() {
        false
    } else {
        holds(nodes, (n - 1) as nat, name) || node_holds(nodes[n - 1], name)
    }
}

/// A forest holds a name exactly where one of its nodes does.
pub proof fn lemma_holds_some_node(nodes: Seq<TreeNodeView>, n: nat, name: Seq<char>)
    requires
        n <= nodes.len(),
    ensures
        holds(nodes, n, name) <==> exists|k: int| 0 <= k < n && node_holds(#[trigger] nodes[k], name),
    decreases n,
{
    if n > 0 {
        lemma_holds_some_node(nodes, (n - 1) as nat, name);
        if node_holds(nodes[n - 1], name) {
            assert(0 <= n - 1 < n && node_holds(nodes[n - 1], name));
        }
    }
}

/// The position of a name lies within the nodes or right behind them, and
/// the node at a position within them has the name.
pub proof fn lemma_position(nodes: Seq<TreeNodeView>, name: Seq<char>, from: int)
    requires
        0 <= from <= nodes.len(),
    ensures
        from <= position_of(nodes, name, from) <= nodes.len(),
        position_of(nodes, name, from) < nodes.len() ==> nodes[position_of(
            nodes,
            name,
            from,
        )].name == name,
    decreases nodes.len() - from,
{
    if from < nodes.len() && nodes[from].name != name {
        lemma_position(nodes, name, from + 1);
    }
}

/// Where one node of a forest is replaced, the forest holds what the other
/// nodes and the new node hold.
proof fn lemma_holds_after_update(
    nodes: Seq<TreeNodeView>,
    at: int,
    node: TreeNodeView,
    name: Seq<char>,
)
    requires
        0 <= at < nodes.len(),
    ensures
        holds(nodes.update(at, node), nodes.len(), name) <==> node_holds(node, name) || exists|
            k: int,
        |
            0 <= k < nodes.len() && k != at && node_holds(#[trigger] nodes[k], name),
{
    let after = nodes.update(at, node);
    lemma_holds_some_node(after, after.len(), name);
    if holds(after, after.len(), name) {
        let k = choose|k: int| 0 <= k < after.len() && node_holds(#[trigger] after[k], name);
        if k != at {
            assert(after[k] == nodes[k]);
            assert(0 <= k < nodes.len() && k != at && node_holds(nodes[k], name));
        }
    }
    if node_holds(node, name) {
        assert(after[at] == node);
    }
    if exists|k: int| 0 <= k < nodes.len() && k != at && node_holds(#[trigger] nodes[k], name) {
        let k = choose|k: int|
            0 <= k < nodes.len() && k != at && node_holds(#[trigger] nodes[k], name);
        assert(after[k] == nodes[k]);
    }
}

/// Where a node is put behind a forest, the forest holds what it held and
/// what the new node holds.
proof fn lemma_holds_after_push(nodes: Seq<TreeNodeView>, node: TreeNodeView, name: Seq<char>)
    ensures
        holds(nodes.push(node), nodes.len() + 1, name) <==> node_holds(node, name) || holds(
            nodes,
            nodes.len(),
            name,
        ),
{
    let after = nodes.push(node);
    lemma_holds_prefix(after, nodes, nodes.len(), name);
    assert(after[nodes.len() as int] == node);
}

/// What the first `n` nodes hold does not depend on the others.
proof fn lemma_holds_prefix(
    all: Seq<TreeNodeView>,
    first: Seq<TreeNodeView>,
    n: nat,
    name: Seq<char>,
)
    requires
        n <= all.len(),
        n <= first.len(),
        forall|k: int| 0 <= k < n ==> all[k] == first[k],
    ensures
        holds(all, n, name) == holds(first, n, name),
    decreases n,
{
    if n > 0 {
        lemma_holds_prefix(all, first, (n - 1) as nat, name);
    }
}

/// A forest into which a record was inserted holds the record.
pub proof fn lemma_inserted_is_held(
    forest: Seq<TreeNodeView>,
    parts: Seq<Seq<char>>,
    repo: RepoInfoView,
)
    requires
        parts.len() > 0,
    ensures
        holds(
            inserted(forest, parts, repo),
            inserted(forest, parts, repo).len(),
            repo.display_name,
        ),
    decreases parts.len(),
{
    let name = repo.display_name;
    let at = position_of(forest, parts[0], 0);
    lemma_position(forest, parts[0], 0);
    if at < forest.len() {
        let node = forest[at];
        let changed = if parts.len() == 1 {
            TreeNodeView { repo_info: Some(repo), ..node }
        } else {
            TreeNodeView { children: inserted(node.children, parts.skip(1), repo), ..node }
        };
        if parts.len() > 1 {
            lemma_inserted_is_held(node.children, parts.skip(1), repo);
        }
        assert(node_holds(changed, name));
        lemma_holds_after_update(forest, at, changed, name);
    } else {
        let fresh = if parts.len() == 1 {
            repo_node(repo)
        } else {
            TreeNodeView {
                children: inserted(Seq::empty(), parts.skip(1), repo),
                ..directory_node(parts[0])
            }
        };
        if parts.len() > 1 {
            lemma_inserted_is_held(Seq::empty(), parts.skip(1), repo);
        }
        assert(node_holds(fresh, name));
        lemma_holds_after_push(forest, fresh, name);
    }
}

/// A forest into which a record was inserted holds nothing new but the
/// record.
pub proof fn lemma_inserted_adds_one(
    forest: Seq<TreeNodeView>,
    parts: Seq<Seq<char>>,
    repo: RepoInfoView,
    name: Seq<char>,
)
    requires
        holds(inserted(forest, parts, repo), inserted(forest, parts, repo).len(), name),
    ensures
        name == repo.display_name || holds(forest, forest.len(), name),
    decreases parts.len(),
{
    if parts.len() > 0 && name != repo.display_name {
        let at = position_of(forest, parts[0], 0);
        lemma_position(forest, parts[0], 0);
        lemma_holds_some_node(forest, forest.len(), name);
        if at < forest.len() {
            let node = forest[at];
            let changed = if parts.len() == 1 {
                TreeNodeView { repo_info: Some(repo), ..node }
            } else {
                TreeNodeView { children: inserted(node.children, parts.skip(1), repo), ..node }
            };
            lemma_holds_after_update(forest, at, changed, name);
            if node_holds(changed, name) {
                if parts.len() > 1 {
                    if holds(changed.children, changed.children.len(), name) {
                        lemma_inserted_adds_one(node.children, parts.skip(1), repo, name);
                    }
                }
                assert(node_holds(node, name));
                assert(0 <= at < forest.len() && node_holds(forest[at], name));
            }
        } else {
            let fresh = if parts.len() == 1 {
                repo_node(repo)
            } else {
                TreeNodeView {
                    children: inserted(Seq::empty(), parts.skip(1), repo),
                    ..directory_node(parts[0])
                }
            };
            lemma_holds_after_push(forest, fresh, name);
            if node_holds(fresh, name) {
                if parts.len() > 1 {
                    lemma_inserted_adds_one(Seq::empty(), parts.skip(1), repo, name);
                }
            }
        }
    }
}

/// A text splits into at least one piece, and where it holds the
/// separator, into its first piece and the pieces of what follows it.
pub proof fn lemma_split_shape(s: Seq<char>, c: char)
    ensures
        split(s, c).len() >= 1,
        first_index(s, c) >= s.len() ==> split(s, c) == seq![s],
        first_index(s, c) < s.len() ==> split(s, c).len() >= 2 && split(s, c)[0] == s.take(
            first_index(s, c),
        ) && split(s, c).skip(1) == split(s.skip(first_index(s, c) + 1), c),
    decreases s.len(),
{
    lemma_first_from(s, c, 0);
    let i = first_index(s, c);
    if i < s.len() {
        lemma_split_shape(s.skip(i + 1), c);
        assert((seq![s.take(i)] + split(s.skip(i + 1), c)).skip(1) =~= split(s.skip(i + 1), c));
    }
}

/// Texts that split into the same pieces are the same text.
pub proof fn lemma_split_injective(a: Seq<char>, b: Seq<char>, c: char)
    requires
        split(a, c) == split(b, c),
    ensures
        a == b,
    decreases a.len(),
{
    lemma_split_shape(a, c);
    lemma_split_shape(b, c);
    lemma_first_from(a, c, 0);
    lemma_first_from(b, c, 0);
    let i = first_index(a, c);
    let j = first_index(b, c);
    if i < a.len() {
        assert(j < b.len());
        assert(a.take(i) == b.take(j));
        assert(a.take(i).len() == i);
        assert(b.take(j).len() == j);
        lemma_split_injective(a.skip(i + 1), b.skip(j + 1), c);
        assert(a =~= a.take(i) + seq![c] + a.skip(i + 1));
        assert(b =~= b.take(j) + seq![c] + b.skip(j + 1));
    } else {
        assert(j >= b.len());
        assert(seq![a][0] == seq![b][0]);
    }
}

/// The last piece of a text is what follows its last separator.
pub proof fn lemma_split_last(s: Seq<char>)
    ensures
        split(s, '/').last() == last_segment(s),
    decreases s.len(),
{
    lemma_split_shape(s, '/');
    lemma_first_from(s, '/', 0);
    lemma_last_before(s, '/', s.len() as int);
    let i = first_index(s, '/');
    let last = last_index(s, '/');
    if i < s.len() {
        let rest = s.skip(i + 1);
        lemma_split_last(rest);
        lemma_split_shape(rest, '/');
        lemma_last_before(rest, '/', rest.len() as int);
        let pieces = split(s, '/');
        assert(pieces.last() == pieces.skip(1).last());
        lemma_last_in_suffix(s, i + 1);
        let tail_last = last_index(rest, '/');
        if tail_last >= 0 {
            assert(last == tail_last + i + 1);
            assert(rest.skip(tail_last + 1) =~= s.skip(last + 1));
        } else {
            assert(last == i);
            assert(rest.skip(0) =~= s.skip(i + 1));
        }
    } else {
        assert(last == -1);
        assert(s.skip(0) =~= s);
    }
}

/// The last separator of a text, seen from a suffix that begins right
/// behind a separator: the last one of the suffix, or the one before it.
proof fn lemma_last_in_suffix(s: Seq<char>, k: int)
    requires
        1 <= k <= s.len(),
        s[k - 1] == '/',
    ensures
        last_index(s, '/') == if last_index(s.skip(k), '/') >= 0 {
            last_index(s.skip(k), '/') + k
        } else {
            k - 1
        },
{
    let rest = s.skip(k);
    lemma_last_before(s, '/', s.len() as int);
    lemma_last_before(rest, '/', rest.len() as int);
    let whole = last_index(s, '/');
    let tail = last_index(rest, '/');
    if tail >= 0 {
        assert(rest[tail] == s[tail + k]);
        assert(whole >= tail + k);
        if whole > tail + k {
            assert(rest[whole - k] == s[whole]);
        }
    } else {
        assert(whole >= k - 1);
        if whole > k - 1 {
            assert(rest[whole - k] == s[whole]);
        }
    }
}

/// Every repository in the node and below it stands where its display
/// name leads: the names of the nodes from a root down to it are the
/// segments of its display name. `above` holds the names of the nodes over
/// the node.
pub open spec fn placed(node: TreeNodeView, above: Seq<Seq<char>>) -> bool
    decreases node, 0nat,
{
    &&& node.repo_info is Some ==> split(node.repo_info.unwrap().display_name, '/') == above.push(
        node.name,
    )
    &&& all_placed(node.children, node.children.len(), above.push(node.name))
}

/// Every repository in the first `n` of `nodes`, which stand below the
/// nodes named `above`, stands where its display name leads.
pub open spec fn all_placed(nodes: Seq<TreeNodeView>, n: nat, above: Seq<Seq<char>>) -> bool
    decreases nodes, n,
{
    if n == 0 || n > nodes.len() {
        true
    } else {
        all_placed(nodes, (n - 1) as nat, above) && placed(nodes[n - 1], above)
    }
}

/// The repositories of a forest are placed exactly where those of each of
/// its nodes are.
proof fn lemma_placed_every_node(nodes: Seq<TreeNodeView>, n: nat, above: Seq<Seq<char>>)
    requires
        n <= nodes.len(),
    ensures
        all_placed(nodes, n, above) <==> forall|k: int|
            0 <= k < n ==> placed(#[trigger] nodes[k], above),
    decreases n,
{
    if n > 0 {
        lemma_placed_every_node(nodes, (n - 1) as nat, above);
    }
}

/// Inserting a record along the segments of its display name keeps every
/// repository where its display name leads.
proof fn lemma_inserted_stays_placed(
    forest: Seq<TreeNodeView>,
    above: Seq<Seq<char>>,
    parts: Seq<Seq<char>>,
    repo: RepoInfoView,
)
    requires
        parts.len() > 0,
        above + parts == split(repo.display_name, '/'),
        all_placed(forest, forest.len(), above),
    ensures
        all_placed(
            inserted(forest, parts, repo),
            inserted(forest, parts, repo).len(),
            above,
        ),
    decreases parts.len(),
{
    let after = inserted(forest, parts, repo);
    let at = position_of(forest, parts[0], 0);
    lemma_position(forest, parts[0], 0);
    lemma_placed_every_node(forest, forest.len(), above);
    let below = above.push(parts[0]);
    assert(below + parts.skip(1) =~= above + parts);
    if at < forest.len() {
        let node = forest[at];
        assert(placed(node, above));
        if parts.len() == 1 {
            assert(above.push(node.name) =~= above + parts);
        } else {
            lemma_inserted_stays_placed(node.children, below, parts.skip(1), repo);
        }
        assert(placed(after[at], above));
        assert forall|k: int| 0 <= k < after.len() implies placed(#[trigger] after[k], above) by {
            if k != at {
                assert(after[k] == forest[k]);
            }
        }
    } else {
        if parts.len() == 1 {
            lemma_split_last(repo.display_name);
            assert((above + parts).last() == parts[0]);
            assert(above.push(last_segment(repo.display_name)) =~= above + parts);
            assert(all_placed(Seq::<TreeNodeView>::empty(), 0, below));
        } else {
            assert(all_placed(Seq::<TreeNodeView>::empty(), 0, below));
            lemma_inserted_stays_placed(Seq::empty(), below, parts.skip(1), repo);
        }
        assert(placed(after[forest.len() as int], above));
        assert forall|k: int| 0 <= k < after.len() implies placed(#[trigger] after[k], above) by {
            if k < forest.len() {
                assert(after[k] == forest[k]);
            }
        }
    }
    lemma_placed_every_node(after, after.len(), above);
}

/// Inserting a record into a forest whose repositories stand where their
/// display names lead loses none of them: the only record that the new
/// one can replace is one of its own display name.
proof fn lemma_inserted_keeps(
    forest: Seq<TreeNodeView>,
    above: Seq<Seq<char>>,
    parts: Seq<Seq<char>>,
    repo: RepoInfoView,
    name: Seq<char>,
)
    requires
        above + parts == split(repo.display_name, '/'),
        all_placed(forest, forest.len(), above),
        holds(forest, forest.len(), name),
    ensures
        holds(inserted(forest, parts, repo), inserted(forest, parts, repo).len(), name),
    decreases parts.len(),
{
    if parts.len() > 0 {
        let after = inserted(forest, parts, repo);
        let at = position_of(forest, parts[0], 0);
        lemma_position(forest, parts[0], 0);
        lemma_placed_every_node(forest, forest.len(), above);
        lemma_holds_some_node(forest, forest.len(), name);
        let k = choose|k: int| 0 <= k < forest.len() && node_holds(#[trigger] forest[k], name);
        let below = above.push(parts[0]);
        assert(below + parts.skip(1) =~= above + parts);
        if at < forest.len() {
            let node = forest[at];
            assert(placed(node, above));
            let changed = after[at];
            lemma_holds_after_update(forest, at, changed, name);
            if k == at {
                if parts.len() == 1 {
                    if node.repo_info is Some && node.repo_info.unwrap().display_name == name {
                        assert(above.push(node.name) =~= above + parts);
                        lemma_split_injective(name, repo.display_name, '/');
                    }
                } else if holds(node.children, node.children.len(), name) {
                    lemma_inserted_keeps(node.children, below, parts.skip(1), repo, name);
                }
                assert(node_holds(changed, name));
            }
        } else {
            lemma_holds_after_push(forest, after[forest.len() as int], name);
        }
    }
}

/// A forest that grows by records holds them all, keeps what it held, and
/// holds nothing else.
proof fn lemma_grown_holds(forest: Seq<TreeNodeView>, repos: Seq<RepoInfoView>, name: Seq<char>)
    requires
        all_placed(forest, forest.len(), Seq::empty()),
    ensures
        holds(grown(forest, repos), grown(forest, repos).len(), name) <==> holds(
            forest,
            forest.len(),
            name,
        ) || exists|i: int| 0 <= i < repos.len() && (#[trigger] repos[i]).display_name == name,
    decreases repos.len(),
{
    if repos.len() > 0 {
        let first = repos[0];
        let parts = split(first.display_name, '/');
        let next = inserted(forest, parts, first);
        let rest = repos.drop_first();
        lemma_split_shape(first.display_name, '/');
        assert(Seq::<Seq<char>>::empty() + parts =~= parts);
        lemma_inserted_stays_placed(forest, Seq::empty(), parts, first);
        lemma_grown_holds(next, rest, name);
        let end = grown(forest, repos);
        if holds(end, end.len(), name) {
            if holds(next, next.len(), name) {
                lemma_inserted_adds_one(forest, parts, first, name);
                if name == first.display_name {
                    assert(0 <= 0 < repos.len() && repos[0].display_name == name);
                }
            } else {
                let i = choose|i: int|
                    0 <= i < rest.len() && (#[trigger] rest[i]).display_name == name;
                assert(repos[i + 1] == rest[i]);
            }
        }
        if holds(forest, forest.len(), name) {
            lemma_inserted_keeps(forest, Seq::empty(), parts, first, name);
        }
        if exists|i: int| 0 <= i < repos.len() && (#[trigger] repos[i]).display_name == name {
            let i = choose|i: int|
                0 <= i < repos.len() && (#[trigger] repos[i]).display_name == name;
            if i == 0 {
                lemma_inserted_is_held(forest, parts, first);
            } else {
                assert(rest[i - 1] == repos[i]);
            }
        }
    }
}

/// The forest of a list of records holds a repository of a display name
/// exactly where one of the records has that display name: building loses
/// no record and invents none.
pub proof fn lemma_built_holds_the_records(repos: Seq<RepoInfoView>, name: Seq<char>)
    ensures
        holds(built(repos), built(repos).len(), name) <==> exists|i: int|
            0 <= i < repos.len() && (#[trigger] repos[i]).display_name == name,
{
    broadcast use vstd::seq_lib::group_to_multiset_ensures;

    let listed = listing(repos);
    lemma_listing_sorts(repos);
    lemma_grown_holds(Seq::empty(), listed, name);
    if exists|i: int| 0 <= i < listed.len() && (#[trigger] listed[i]).display_name == name {
        let i = choose|i: int| 0 <= i < listed.len() && (#[trigger] listed[i]).display_name == name;
        assert(listed.contains(listed[i]));
        assert(listed.to_multiset().count(listed[i]) > 0);
        assert(repos.to_multiset().count(listed[i]) > 0);
        assert(repos.contains(listed[i]));
        let j = choose|j: int| 0 <= j < repos.len() && repos[j] == listed[i];
        assert(repos[j].display_name == name);
    }
    if exists|i: int| 0 <= i < repos.len() && (#[trigger] repos[i]).display_name == name {
        let i = choose|i: int| 0 <= i < repos.len() && (#[trigger] repos[i]).display_name == name;
        assert(repos.contains(repos[i]));
        assert(repos.to_multiset().count(repos[i]) > 0);
        assert(listed.to_multiset().count(repos[i]) > 0);
        assert(listed.contains(repos[i]));
        let j = choose|j: int| 0 <= j < listed.len() && listed[j] == repos[i];
        assert(listed[j].display_name == name);
    }
}

/// What a node holds is what collecting its repository paths gives.
pub proof fn lemma_held_is_collected(node: TreeNodeView, name: Seq<char>)
    ensures
        node_holds(node, name) <==> repo_paths(node).contains(name),
    decreases node, 0nat,
{
    let own = match node.repo_info {
        Some(repo) => seq![repo.display_name],
        None => Seq::<Seq<char>>::empty(),
    };
    let below = repo_paths_of(node.children, node.children.len());
    lemma_held_are_collected(node.children, node.children.len(), name);
    lemma_contains_in_sum(own, below, name);
    if node.repo_info is Some {
        assert(own[0] == node.repo_info.unwrap().display_name);
    }
}

/// What the first `n` of `nodes` hold is what collecting their repository
/// paths gives.
pub proof fn lemma_held_are_collected(nodes: Seq<TreeNodeView>, n: nat, name: Seq<char>)
    requires
        n <= nodes.len(),
    ensures
        holds(nodes, n, name) <==> repo_paths_of(nodes, n).contains(name),
    decreases nodes, n,
{
    if n > 0 {
        lemma_held_are_collected(nodes, (n - 1) as nat, name);
        lemma_held_is_collected(nodes[n - 1], name);
        lemma_contains_in_sum(
            repo_paths_of(nodes, (n - 1) as nat),
            repo_paths(nodes[n - 1]),
            name,
        );
    }
}

/// A sequence put together from two holds what one of the two holds.
proof fn lemma_contains_in_sum(a: Seq<Seq<char>>, b: Seq<Seq<char>>, x: Seq<char>)
    ensures
        (a + b).contains(x) <==> a.contains(x) || b.contains(x),
{
    if a.contains(x) {
        let i = choose|i: int| 0 <= i < a.len() && a[i] == x;
        assert((a + b)[i] == x);
    }
    if b.contains(x) {
        let i = choose|i: int| 0 <= i < b.len() && b[i] == x;
        assert((a + b)[a.len() + i] == x);
    }
    if (a + b).contains(x) {
        let i = choose|i: int| 0 <= i < (a + b).len() && (a + b)[i] == x;
        if i < a.len() {
            assert(a[i] == x);
        } else {
            assert(b[i - a.len()] == x);
        }
    }
}

/// Collecting the repository paths of the forest of a list of records
/// gives the display names of the records, and no other.
pub proof fn lemma_built_collects_the_records(repos: Seq<RepoInfoView>, name: Seq<char>)
    ensures
        repo_paths_of(built(repos), built(repos).len()).contains(name) <==> exists|i: int|
            0 <= i < repos.len() && (#[trigger] repos[i]).display_name == name,
{
    lemma_built_holds_the_records(repos, name);
    lemma_held_are_collected(built(repos), built(repos).len(), name);
}

/// The number of repositories in the first `n` nodes does not depend on
/// the others.
proof fn lemma_count_prefix(all: Seq<TreeNodeView>, first: Seq<TreeNodeView>, n: nat)
    requires
        n <= all.len(),
        n <= first.len(),
        forall|k: int| 0 <= k < n ==> all[k] == first[k],
    ensures
        repo_count_of(all, n) == repo_count_of(first, n),
    decreases n,
{
    if n > 0 {
        lemma_count_prefix(all, first, (n - 1) as nat);
    }
}

/// Where one node of a forest is replaced, the number of repositories
/// changes by as much as that of the node.
proof fn lemma_count_after_update(nodes: Seq<TreeNodeView>, at: int, node: TreeNodeView, n: nat)
    requires
        0 <= at < nodes.len(),
        n <= nodes.len(),
    ensures
        repo_count_of(nodes.update(at, node), n) + (if at < n {
            repo_count(nodes[at])
        } else {
            0
        }) == repo_count_of(nodes, n) + (if at < n {
            repo_count(node)
        } else {
            0
        }),
    decreases n,
{
    if n > 0 {
        lemma_count_after_update(nodes, at, node, (n - 1) as nat);
    }
}

/// Inserting a record adds at most one repository.
proof fn lemma_inserted_counts_one(
    forest: Seq<TreeNodeView>,
    parts: Seq<Seq<char>>,
    repo: RepoInfoView,
)
    ensures
        repo_count_of(inserted(forest, parts, repo), inserted(forest, parts, repo).len())
            <= repo_count_of(forest, forest.len()) + 1,
    decreases parts.len(),
{
    if parts.len() > 0 {
        let after = inserted(forest, parts, repo);
        let at = position_of(forest, parts[0], 0);
        lemma_position(forest, parts[0], 0);
        if at < forest.len() {
            let node = forest[at];
            if parts.len() > 1 {
                lemma_inserted_counts_one(node.children, parts.skip(1), repo);
            }
            assert(repo_count(after[at]) <= repo_count(node) + 1);
            lemma_count_after_update(forest, at, after[at], forest.len());
        } else {
            let fresh = after[forest.len() as int];
            if parts.len() > 1 {
                lemma_inserted_counts_one(Seq::empty(), parts.skip(1), repo);
            }
            assert(repo_count_of(Seq::<TreeNodeView>::empty(), 0) == 0);
            assert(repo_count(fresh) <= 1);
            lemma_count_prefix(after, forest, forest.len());
        }
    }
}

/// A forest that grows by records gains at most one repository for each.
proof fn lemma_grown_counts(forest: Seq<TreeNodeView>, repos: Seq<RepoInfoView>)
    ensures
        repo_count_of(grown(forest, repos), grown(forest, repos).len()) <= repo_count_of(
            forest,
            forest.len(),
        ) + repos.len(),
    decreases repos.len(),
{
    if repos.len() > 0 {
        let next = inserted(forest, split(repos[0].display_name, '/'), repos[0]);
        lemma_inserted_counts_one(forest, split(repos[0].display_name, '/'), repos[0]);
        lemma_grown_counts(next, repos.drop_first());
    }
}

/// The forest of a list of records holds at most as many repositories as
/// there are records: as many as there are display names among them.
pub proof fn lemma_built_counts_the_records(repos: Seq<RepoInfoView>)
    ensures
        repo_count_of(built(repos), built(repos).len()) <= repos.len(),
{
    lemma_listing_sorts(repos);
    lemma_grown_counts(Seq::empty(), listing(repos));
}

} // verus!
