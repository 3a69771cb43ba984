//! The registry of projects.

use vstd::prelude::*;

use crate::order::{in_order, keyed, law_order_is_kept, ordered, sort_by_key, text_le};
use crate::path::naming_parts;
use crate::project::paths::{
    components, depth, identity_of, is_within, path_depth, path_identity, path_is_within,
    paths_equal, same_path, QueryPath,
};
use crate::text::{
    clone_texts, has_prefix, lemma_pieces_nonempty, optional_text, pieces, texts, without_prefix,
};

verus! {

/// The version of the registry's file.
pub const PROJECT_REGISTRY_VERSION: u32 = 1;

/// Why the registry's file is refused.
#[derive(Clone, Copy, Debug, PartialEq, Eq, Structural)]
pub enum RegistryError {
    UnsupportedVersion(u32),
    RelativeRoot,
}

/// The registered projects, by their roots. No project is registered twice,
/// and they are in the order of their paths.
#[derive(Debug, PartialEq, Eq)]
pub struct ProjectRegistry {
    /// The file that holds the registry.
    pub path: String,
    pub roots: Vec<String>,
    /// Whether paths follow the rules of Windows.
    pub windows: bool,
}

/// Whether one of some roots is the given path.
pub open spec fn has_root(roots: Seq<Seq<char>>, path: Seq<char>, windows: bool) -> bool {
    exists|i: int| 0 <= i < roots.len() && same_path(#[trigger] roots[i], path, windows)
}

/// Whether no root occurs twice.
pub open spec fn are_distinct(roots: Seq<Seq<char>>, windows: bool) -> bool {
    forall|i: int, j: int|
        0 <= i < roots.len() && 0 <= j < roots.len() && i != j ==> !same_path(
            #[trigger] roots[i],
            #[trigger] roots[j],
            windows,
        )
}

/// Roots without those that occurred before.
pub open spec fn without_repeats(roots: Seq<Seq<char>>, windows: bool) -> Seq<Seq<char>>
    decreases roots.len(),
{
    if roots.len() == 0 {
        Seq::empty()
    } else {
        let before = without_repeats(roots.drop_last(), windows);
        if has_root(before, roots.last(), windows) {
            before
        } else {
            before.push(roots.last())
        }
    }
}

/// Roots with the texts that they are ordered by.
pub open spec fn with_identities(roots: Seq<Seq<char>>, windows: bool) -> Seq<
    (Seq<char>, Seq<char>),
> {
    roots.map_values(|root: Seq<char>| (identity_of(root, windows), root))
}

/// The roots among items.
pub open spec fn roots_in(items: Seq<(Seq<char>, Seq<char>)>) -> Seq<Seq<char>> {
    items.map_values(|item: (Seq<char>, Seq<char>)| item.1)
}

/// Roots in the order of their paths.
pub open spec fn sorted_roots(roots: Seq<Seq<char>>, windows: bool) -> Seq<Seq<char>> {
    roots_in(ordered(with_identities(roots, windows)))
}

/// Whether roots are in the order of their paths.
pub open spec fn roots_in_order(roots: Seq<Seq<char>>, windows: bool) -> bool {
    in_order(with_identities(roots, windows))
}

fn sort_roots(roots: &Vec<String>, windows: bool) -> (result: Vec<String>)
    ensures
        texts(result@) == sorted_roots(texts(roots@), windows),
{
    let mut items: Vec<(String, String)> = Vec::new();
    let ghost all = texts(roots@);
    let mut index: usize = 0;
    while index < roots.len()
        invariant
            index <= roots@.len(),
            all == texts(roots@),
            keyed(items@) == with_identities(all, windows).take(index as int),
        decreases roots@.len() - index,
    {
        let root = roots[index].clone();
        let identity = path_identity(root.as_str(), windows);
        let ghost before = items@;
        items.push((identity, root));
        proof {
            assert(keyed(items@) =~= keyed(before).push((identity@, root@)));
            assert(with_identities(all, windows).take(index + 1) =~= with_identities(
                all,
                windows,
            ).take(index as int).push((identity@, root@)));
        }
        index = index + 1;
    }
    proof {
        assert(with_identities(all, windows).take(index as int) == with_identities(all, windows));
    }
    let sorted = sort_by_key(&items);
    let ghost shown = keyed(sorted@);
    let mut result: Vec<String> = Vec::new();
    index = 0;
    while index < sorted.len()
        invariant
            index <= sorted@.len(),
            shown == keyed(sorted@),
            texts(result@) == roots_in(shown).take(index as int),
        decreases sorted@.len() - index,
    {
        let root = sorted[index].1.clone();
        let ghost before = result@;
        result.push(root);
        proof {
            assert(texts(result@) =~= texts(before).push(root@));
            assert(shown[index as int] == (sorted@[index as int].0@, sorted@[index as int].1@));
            assert(roots_in(shown).take(index + 1) =~= roots_in(shown).take(index as int).push(
                root@,
            ));
        }
        index = index + 1;
    }
    proof {
        assert(roots_in(shown).take(index as int) == roots_in(shown));
    }
    result
}

proof fn lemma_same_path(left: Seq<char>, right: Seq<char>, windows: bool)
    ensures
        same_path(left, left, windows),
        same_path(left, right, windows) == same_path(right, left, windows),
{
}

/// Whether two lists hold the same roots, each as often as in the other.
proof fn lemma_sorted_roots(roots: Seq<Seq<char>>, windows: bool)
    ensures
        sorted_roots(roots, windows).len() == roots.len(),
        sorted_roots(roots, windows).to_multiset() == roots.to_multiset(),
        roots_in_order(sorted_roots(roots, windows), windows),
{
    let items = with_identities(roots, windows);
    law_order_is_kept(items);
    let sorted = ordered(items);
    lemma_roots_of_permuted(items, sorted);
    assert(roots_in(items) =~= roots);
    assert forall|i: int| 0 <= i < sorted.len() implies (#[trigger] sorted[i]).0 == identity_of(
        sorted[i].1,
        windows,
    ) by {
        lemma_in_multiset(sorted, i);
        assert(items.to_multiset().contains(sorted[i]));
        lemma_from_multiset(items, sorted[i]);
        let at = choose|at: int| 0 <= at < items.len() && items[at] == sorted[i];
        assert(items[at] == (identity_of(roots[at], windows), roots[at]));
    }
    assert(with_identities(roots_in(sorted), windows) =~= sorted);
}

proof fn lemma_in_multiset<T>(items: Seq<T>, index: int)
    requires
        0 <= index < items.len(),
    ensures
        items.to_multiset().contains(items[index]),
{
    broadcast use vstd::seq_lib::group_to_multiset_ensures;

    assert(items.contains(items[index]));
}

proof fn lemma_from_multiset<T>(items: Seq<T>, item: T)
    requires
        items.to_multiset().contains(item),
    ensures
        items.contains(item),
{
    broadcast use vstd::seq_lib::group_to_multiset_ensures;

}

proof fn lemma_roots_of_permuted(
    left: Seq<(Seq<char>, Seq<char>)>,
    right: Seq<(Seq<char>, Seq<char>)>,
)
    requires
        left.to_multiset() == right.to_multiset(),
    ensures
        roots_in(left).to_multiset() == roots_in(right).to_multiset(),
    decreases left.len(),
{
    broadcast use vstd::seq_lib::group_to_multiset_ensures;

    assert(left.len() == right.len()) by {
        assert(left.to_multiset().len() == left.len());
        assert(right.to_multiset().len() == right.len());
    }
    if left.len() == 0 {
        assert(roots_in(left) =~= roots_in(right));
    } else {
        let item = left.last();
        lemma_in_multiset(left, left.len() - 1);
        lemma_from_multiset(right, item);
        let at = choose|at: int| 0 <= at < right.len() && right[at] == item;
        let rest = right.remove(at);
        let shorter = left.drop_last();
        assert(left =~= shorter.push(item));
        assert(shorter.to_multiset() =~= left.to_multiset().remove(item));
        vstd::seq_lib::to_multiset_remove(right, at);
        assert(rest.to_multiset() =~= right.to_multiset().remove(item));
        lemma_roots_of_permuted(shorter, rest);
        assert(roots_in(left) =~= roots_in(shorter).push(item.1));
        assert(roots_in(right).remove(at) =~= roots_in(rest));
        vstd::seq_lib::to_multiset_remove(roots_in(right), at);
        assert(roots_in(right)[at] == item.1);
        assert(roots_in(rest).to_multiset() =~= roots_in(right).to_multiset().remove(item.1));
        lemma_in_multiset(roots_in(right), at);
        assert(roots_in(right).to_multiset() =~= roots_in(rest).to_multiset().insert(item.1));
    }
}

/// Lists of the same roots have the same paths among them, and are distinct
/// together.
proof fn lemma_permuted_roots(left: Seq<Seq<char>>, right: Seq<Seq<char>>, windows: bool)
    requires
        left.to_multiset() == right.to_multiset(),
    ensures
        forall|path: Seq<char>|
            has_root(left, path, windows) == #[trigger] has_root(right, path, windows),
        are_distinct(left, windows) ==> are_distinct(right, windows),
{
    assert forall|path: Seq<char>| has_root(left, path, windows) == #[trigger] has_root(
        right,
        path,
        windows,
    ) by {
        if has_root(left, path, windows) {
            lemma_root_carries(left, right, path, windows);
        }
        if has_root(right, path, windows) {
            lemma_root_carries(right, left, path, windows);
        }
    }
    if are_distinct(left, windows) {
        lemma_distinct_carries(left, right, windows);
    }
}

proof fn lemma_root_carries(
    left: Seq<Seq<char>>,
    right: Seq<Seq<char>>,
    path: Seq<char>,
    windows: bool,
)
    requires
        left.to_multiset() == right.to_multiset(),
        has_root(left, path, windows),
    ensures
        has_root(right, path, windows),
{
    let i = choose|i: int| 0 <= i < left.len() && same_path(#[trigger] left[i], path, windows);
    lemma_in_multiset(left, i);
    lemma_from_multiset(right, left[i]);
    let j = choose|j: int| 0 <= j < right.len() && right[j] == left[i];
    assert(same_path(right[j], path, windows));
}

proof fn lemma_distinct_carries(left: Seq<Seq<char>>, right: Seq<Seq<char>>, windows: bool)
    requires
        left.to_multiset() == right.to_multiset(),
        are_distinct(left, windows),
    ensures
        are_distinct(right, windows),
    decreases left.len(),
{
    broadcast use vstd::seq_lib::group_to_multiset_ensures;

    assert(left.to_multiset().len() == left.len());
    assert(right.to_multiset().len() == right.len());
    if right.len() > 0 {
        let item = right.last();
        let shorter = right.drop_last();
        lemma_in_multiset(right, right.len() - 1);
        lemma_from_multiset(left, item);
        let at = choose|at: int| 0 <= at < left.len() && left[at] == item;
        let rest = left.remove(at);
        vstd::seq_lib::to_multiset_remove(left, at);
        assert(right =~= shorter.push(item));
        assert(shorter.to_multiset() =~= right.to_multiset().remove(item));
        assert(rest.to_multiset() =~= left.to_multiset().remove(item));
        assert forall|i: int, j: int|
            0 <= i < rest.len() && 0 <= j < rest.len() && i != j implies !same_path(
            #[trigger] rest[i],
            #[trigger] rest[j],
            windows,
        ) by {
            let a = if i < at {
                i
            } else {
                i + 1
            };
            let b = if j < at {
                j
            } else {
                j + 1
            };
            assert(rest[i] == left[a] && rest[j] == left[b]);
        }
        lemma_distinct_carries(rest, shorter, windows);
        assert forall|i: int| 0 <= i < shorter.len() implies !same_path(
            #[trigger] shorter[i],
            item,
            windows,
        ) by {
            lemma_in_multiset(shorter, i);
            lemma_from_multiset(rest, shorter[i]);
            let k = choose|k: int| 0 <= k < rest.len() && rest[k] == shorter[i];
            let a = if k < at {
                k
            } else {
                k + 1
            };
            assert(rest[k] == left[a]);
            assert(!same_path(left[a], left[at], windows));
        }
        assert forall|i: int, j: int|
            0 <= i < right.len() && 0 <= j < right.len() && i != j implies !same_path(
            #[trigger] right[i],
            #[trigger] right[j],
            windows,
        ) by {
            lemma_same_path(right[i], right[j], windows);
            if i < shorter.len() && j < shorter.len() {
                assert(right[i] == shorter[i] && right[j] == shorter[j]);
            } else if i < shorter.len() {
                assert(right[i] == shorter[i]);
            } else {
                assert(right[j] == shorter[j]);
            }
        }
    }
}

proof fn lemma_without_repeats(roots: Seq<Seq<char>>, windows: bool)
    ensures
        are_distinct(without_repeats(roots, windows), windows),
    decreases roots.len(),
{
    if roots.len() > 0 {
        let before = without_repeats(roots.drop_last(), windows);
        let after = without_repeats(roots, windows);
        lemma_without_repeats(roots.drop_last(), windows);
        if !has_root(before, roots.last(), windows) {
            assert forall|i: int, j: int|
                0 <= i < after.len() && 0 <= j < after.len() && i != j implies !same_path(
                #[trigger] after[i],
                #[trigger] after[j],
                windows,
            ) by {
                lemma_same_path(after[i], after[j], windows);
                if i < before.len() && j < before.len() {
                    assert(after[i] == before[i] && after[j] == before[j]);
                } else if i < before.len() {
                    assert(after[i] == before[i]);
                } else {
                    assert(after[j] == before[j]);
                }
            }
        }
    }
}

/// Where among some roots the deepest one stands that a path lies within, and
/// the last one of equally deep ones.
pub open spec fn deepest(
    roots: Seq<Seq<char>>,
    path: Seq<char>,
    canonical: Option<Seq<char>>,
    windows: bool,
) -> Option<int>
    decreases roots.len(),
{
    if roots.len() == 0 {
        None
    } else {
        let before = deepest(roots.drop_last(), path, canonical, windows);
        if !is_within(path, canonical, roots.last(), windows) {
            before
        } else {
            match before {
                Some(index) if depth(roots[index], windows) > depth(roots.last(), windows) => Some(
                    index,
                ),
                _ => Some(roots.len() - 1),
            }
        }
    }
}

proof fn lemma_deepest(
    roots: Seq<Seq<char>>,
    path: Seq<char>,
    canonical: Option<Seq<char>>,
    windows: bool,
)
    ensures
        match deepest(roots, path, canonical, windows) {
            Some(index) => {
                &&& 0 <= index < roots.len()
                &&& is_within(path, canonical, roots[index], windows)
                &&& forall|i: int|
                    0 <= i < roots.len() && is_within(
                        path,
                        canonical,
                        #[trigger] roots[i],
                        windows,
                    ) ==> depth(roots[i], windows) <= depth(roots[index], windows) && (depth(
                        roots[i],
                        windows,
                    ) == depth(roots[index], windows) ==> i <= index)
            },
            None => forall|i: int|
                0 <= i < roots.len() ==> !is_within(path, canonical, #[trigger] roots[i], windows),
        },
    decreases roots.len(),
{
    if roots.len() > 0 {
        let shorter = roots.drop_last();
        lemma_deepest(shorter, path, canonical, windows);
        assert forall|i: int| 0 <= i < shorter.len() implies shorter[i] == #[trigger] roots[i] by {}
        match deepest(roots, path, canonical, windows) {
            Some(index) => {
                assert forall|i: int|
                    0 <= i < roots.len() && is_within(
                        path,
                        canonical,
                        #[trigger] roots[i],
                        windows,
                    ) implies depth(roots[i], windows) <= depth(roots[index], windows) && (depth(
                    roots[i],
                    windows,
                ) == depth(roots[index], windows) ==> i <= index) by {
                    if i < shorter.len() {
                        assert(is_within(path, canonical, shorter[i], windows));
                    }
                }
            },
            None => {},
        }
    }
}

impl ProjectRegistry {
    /// The roots as they view.
    pub open spec fn view(self) -> Seq<Seq<char>> {
        texts(self.roots@)
    }

    /// No project is registered twice, and they are in their order.
    pub open spec fn wf(self) -> bool {
        &&& are_distinct(self.view(), self.windows)
        &&& roots_in_order(self.view(), self.windows)
    }

    /// Whether a path is registered.
    pub open spec fn registers(self, root: Seq<char>) -> bool {
        has_root(self.view(), root, self.windows)
    }

    /// A registry without projects.
    pub fn empty(path: String, windows: bool) -> (result: ProjectRegistry)
        ensures
            result.path == path,
            result.windows == windows,
            result.view() == Seq::<Seq<char>>::empty(),
            result.wf(),
    {
        let registry = ProjectRegistry { path, roots: Vec::new(), windows };
        proof {
            assert(registry.view() =~= Seq::<Seq<char>>::empty());
            assert(with_identities(registry.view(), windows).len() == 0);
        }
        registry
    }

    /// The registry of a file of some version and projects. `absolute` says
    /// which of the projects' paths are absolute.
    pub fn load_from(
        path: String,
        version: u32,
        projects: &Vec<String>,
        absolute: &Vec<bool>,
        windows: bool,
    ) -> (result: Result<ProjectRegistry, RegistryError>)
        requires
            absolute@.len() == projects@.len(),
        ensures
            match result {
                Ok(registry) => {
                    &&& version == PROJECT_REGISTRY_VERSION
                    &&& forall|i: int| 0 <= i < absolute@.len() ==> #[trigger] absolute@[i]
                    &&& registry.path == path
                    &&& registry.windows == windows
                    &&& registry.view() == sorted_roots(
                        without_repeats(texts(projects@), windows),
                        windows,
                    )
                    &&& registry.wf()
                },
                Err(RegistryError::UnsupportedVersion(found)) => found == version && version
                    != PROJECT_REGISTRY_VERSION,
                Err(RegistryError::RelativeRoot) => version == PROJECT_REGISTRY_VERSION && exists|
                    i: int,
                | 0 <= i < absolute@.len() && !#[trigger] absolute@[i],
            },
    {
        if version != PROJECT_REGISTRY_VERSION {
            return Err(RegistryError::UnsupportedVersion(version));
        }
        let mut roots: Vec<String> = Vec::new();
        let mut index: usize = 0;
        let ghost all = texts(projects@);
        proof {
            assert(all.take(0) == Seq::<Seq<char>>::empty());
            assert(texts(roots@) =~= Seq::<Seq<char>>::empty());
        }
        while index < projects.len()
            invariant
                index <= projects@.len() == absolute@.len(),
                all == texts(projects@),
                version == PROJECT_REGISTRY_VERSION,
                texts(roots@) == without_repeats(all.take(index as int), windows),
                forall|i: int| 0 <= i < index ==> #[trigger] absolute@[i],
            decreases projects@.len() - index,
        {
            if !absolute[index] {
                return Err(RegistryError::RelativeRoot);
            }
            proof {
                let longer = all.take(index + 1);
                assert(longer.drop_last() == all.take(index as int));
                assert(longer.last() == projects@[index as int]@);
            }
            if !list_has_root(&roots, projects[index].as_str(), windows) {
                let ghost before = roots@;
                roots.push(projects[index].clone());
                proof {
                    assert(texts(roots@) =~= texts(before).push(projects@[index as int]@));
                }
            }
            index = index + 1;
        }
        proof {
            assert(all.take(index as int) == all);
        }
        let sorted = sort_roots(&roots, windows);
        proof {
            lemma_without_repeats(all, windows);
            lemma_sorted_roots(texts(roots@), windows);
            lemma_permuted_roots(texts(roots@), texts(sorted@), windows);
        }
        Ok(ProjectRegistry { path, roots: sorted, windows })
    }

    /// Whether a path is registered.
    pub fn contains(&self, root: &str) -> (result: bool)
        ensures
            result == self.registers(root@),
    {
        list_has_root(&self.roots, root, self.windows)
    }

    fn deepest_index(&self, directory: &QueryPath) -> (result: Option<usize>)
        ensures
            match result {
                Some(index) => index < self.roots@.len() && deepest(
                    self.view(),
                    directory.path@,
                    optional_text(directory.canonical),
                    self.windows,
                ) == Some(index as int),
                None => deepest(
                    self.view(),
                    directory.path@,
                    optional_text(directory.canonical),
                    self.windows,
                ) is None,
            },
    {
        let mut found: Option<usize> = None;
        let mut index: usize = 0;
        let ghost all = self.view();
        proof {
            assert(all.take(0) == Seq::<Seq<char>>::empty());
        }
        while index < self.roots.len()
            invariant
                index <= self.roots@.len(),
                all == texts(self.roots@),
                match found {
                    Some(at) => at < index && deepest(
                        all.take(index as int),
                        directory.path@,
                        optional_text(directory.canonical),
                        self.windows,
                    ) == Some(at as int),
                    None => deepest(
                        all.take(index as int),
                        directory.path@,
                        optional_text(directory.canonical),
                        self.windows,
                    ) is None,
                },
            decreases self.roots@.len() - index,
        {
            proof {
                let longer = all.take(index + 1);
                assert(longer.drop_last() == all.take(index as int));
                assert(longer.last() == self.roots@[index as int]@);
                if let Some(at) = found {
                    assert(longer[at as int] == self.roots@[at as int]@);
                }
            }
            if path_is_within(directory, self.roots[index].as_str(), self.windows) {
                let deeper = match found {
                    Some(at) => path_depth(self.roots[at].as_str(), self.windows) > path_depth(
                        self.roots[index].as_str(),
                        self.windows,
                    ),
                    None => false,
                };
                if !deeper {
                    found = Some(index);
                }
            }
            index = index + 1;
        }
        proof {
            assert(all.take(index as int) == all);
        }
        found
    }

    /// The deepest project that a directory lies within.
    pub fn matching_root(&self, directory: &QueryPath) -> (result: Option<&String>)
        ensures
            match result {
                Some(root) => deepest(
                    self.view(),
                    directory.path@,
                    optional_text(directory.canonical),
                    self.windows,
                ) matches Some(index) && 0 <= index < self.roots@.len() && self.roots@[index]
                    == *root,
                None => deepest(
                    self.view(),
                    directory.path@,
                    optional_text(directory.canonical),
                    self.windows,
                ) is None,
            },
    {
        match self.deepest_index(directory) {
            Some(index) => Some(&self.roots[index]),
            None => None,
        }
    }

    /// Registers a project by its canonical root, unless it is registered.
    pub fn add(&mut self, root: &str) -> (result: bool)
        requires
            old(self).wf(),
        ensures
            final(self).wf(),
            final(self).path == old(self).path,
            final(self).windows == old(self).windows,
            result == !old(self).registers(root@),
            final(self).view() == if result {
                sorted_roots(old(self).view().push(root@), old(self).windows)
            } else {
                old(self).view()
            },
            final(self).registers(root@),
            forall|other: Seq<char>|
                old(self).registers(other) ==> #[trigger] final(self).registers(other),
    {
        proof {
            lemma_same_path(root@, root@, self.windows);
        }
        if self.contains(root) {
            return false;
        }
        let ghost before = self.view();
        let mut longer = clone_texts(&self.roots);
        let ghost copied = longer@;
        longer.push(root.to_owned());
        proof {
            assert(texts(longer@) =~= before.push(root@));
        }
        self.roots = sort_roots(&longer, self.windows);
        proof {
            let all = before.push(root@);
            let windows = self.windows;
            assert forall|i: int, j: int|
                0 <= i < all.len() && 0 <= j < all.len() && i != j implies !same_path(
                #[trigger] all[i],
                #[trigger] all[j],
                windows,
            ) by {
                lemma_same_path(all[i], all[j], windows);
                if i < before.len() && j < before.len() {
                    assert(all[i] == before[i] && all[j] == before[j]);
                } else if i < before.len() {
                    assert(all[i] == before[i]);
                } else {
                    assert(all[j] == before[j]);
                }
            }
            lemma_sorted_roots(all, windows);
            lemma_permuted_roots(all, self.view(), windows);
            assert(same_path(all[before.len() as int], root@, windows));
            assert(has_root(all, root@, windows));
            assert forall|other: Seq<char>| old(self).registers(other) implies
                #[trigger] self.registers(other) by {
                let i = choose|i: int|
                    0 <= i < before.len() && same_path(#[trigger] before[i], other, windows);
                assert(same_path(all[i], other, windows));
                assert(has_root(all, other, windows));
            }
        }
        true
    }

    /// Takes out the deepest project that a path lies within.
    pub fn remove(&mut self, root_or_child: &QueryPath) -> (result: Option<String>)
        requires
            old(self).wf(),
        ensures
            final(self).wf(),
            final(self).path == old(self).path,
            final(self).windows == old(self).windows,
            match deepest(
                old(self).view(),
                root_or_child.path@,
                optional_text(root_or_child.canonical),
                old(self).windows,
            ) {
                Some(index) => {
                    &&& 0 <= index < old(self).view().len()
                    &&& optional_text(result) == Some(old(self).view()[index])
                    &&& final(self).view() == old(self).view().remove(index)
                    &&& !final(self).registers(old(self).view()[index])
                },
                None => result is None && *final(self) == *old(self),
            },
    {
        match self.deepest_index(root_or_child) {
            None => None,
            Some(index) => {
                let ghost before = self.view();
                let ghost windows = self.windows;
                let root = self.roots.remove(index);
                proof {
                    let after = self.view();
                    assert(after =~= before.remove(index as int));
                    assert(before[index as int] == root@);
                    assert forall|i: int| 0 <= i < after.len() implies #[trigger] after[i]
                        == before[if i < index {
                        i
                    } else {
                        i + 1
                    }] by {}
                    assert forall|i: int, j: int|
                        0 <= i < after.len() && 0 <= j < after.len() && i != j implies !same_path(
                        #[trigger] after[i],
                        #[trigger] after[j],
                        windows,
                    ) by {
                        let a = if i < index {
                            i
                        } else {
                            i + 1
                        };
                        let b = if j < index {
                            j
                        } else {
                            j + 1
                        };
                        assert(after[i] == before[a] && after[j] == before[b]);
                    }
                    let items = with_identities(after, windows);
                    let old_items = with_identities(before, windows);
                    assert forall|i: int, j: int| 0 <= i <= j < items.len() implies text_le(
                        (#[trigger] items[i]).0,
                        (#[trigger] items[j]).0,
                    ) by {
                        let a = if i < index {
                            i
                        } else {
                            i + 1
                        };
                        let b = if j < index {
                            j
                        } else {
                            j + 1
                        };
                        assert(items[i] == old_items[a] && items[j] == old_items[b]);
                    }
                    assert(!has_root(after, root@, windows)) by {
                        if has_root(after, root@, windows) {
                            let i = choose|i: int|
                                0 <= i < after.len() && same_path(
                                    #[trigger] after[i],
                                    root@,
                                    windows,
                                );
                            let a = if i < index {
                                i
                            } else {
                                i + 1
                            };
                            assert(after[i] == before[a]);
                            assert(!same_path(before[a], before[index as int], windows));
                        }
                    }
                }
                Some(root)
            },
        }
    }
}

fn list_has_root(roots: &Vec<String>, path: &str, windows: bool) -> (result: bool)
    ensures
        result == has_root(texts(roots@), path@, windows),
{
    let mut index: usize = 0;
    while index < roots.len()
        invariant
            index <= roots@.len(),
            forall|i: int|
                0 <= i < index ==> !same_path(#[trigger] texts(roots@)[i], path@, windows),
        decreases roots@.len() - index,
    {
        if paths_equal(roots[index].as_str(), path, windows) {
            proof {
                assert(same_path(texts(roots@)[index as int], path@, windows));
            }
            return true;
        }
        proof {
            assert(texts(roots@)[index as int] == roots@[index as int]@);
        }
        index = index + 1;
    }
    false
}

proof fn lemma_naming_parts_grow(parts: Seq<Seq<char>>, longer: Seq<char>)
    requires
        parts.len() > 0,
        longer.len() == parts.last().len() + 1,
        longer.drop_last() == parts.last(),
    ensures
        naming_parts(parts).len() <= naming_parts(parts.drop_last().push(longer)).len(),
{
    let grown = parts.drop_last().push(longer);
    assert(grown.drop_last() == parts.drop_last());
    assert(grown.last() == longer);
    reveal_strlit(".");
    assert("."@ =~= seq!['.']);
    if longer == "."@ {
        assert(parts.last().len() == 0);
        assert(parts.last() =~= Seq::<char>::empty());
    }
}

/// A path does not lose a part by a character more at its end.
proof fn lemma_components_grow(path: Seq<char>, character: char)
    ensures
        components(path).len() <= components(path.push(character)).len(),
{
    let longer = path.push(character);
    let parts = pieces(path, '/');
    let grown = pieces(longer, '/');
    assert(longer.drop_last() == path);
    lemma_pieces_nonempty(path, '/');
    reveal_strlit("/");
    assert("/"@ =~= seq!['/']);
    reveal_strlit(".");
    assert("."@ =~= seq!['.']);
    if character == '/' {
        assert(grown == parts.push(Seq::empty()));
        assert(grown.drop_last() == parts);
        assert(grown.last() == Seq::<char>::empty());
        assert(naming_parts(grown) == naming_parts(parts));
    } else {
        assert(grown == parts.drop_last().push(parts.last().push(character)));
        assert(parts.last().push(character).drop_last() =~= parts.last());
        lemma_naming_parts_grow(parts, parts.last().push(character));
    }
    if has_prefix(path, "/"@) {
        assert(longer.take(1) == path.take(1));
        assert(has_prefix(longer, "/"@));
    } else if parts.first() == "."@ {
        if parts.len() == 1 && character != '/' {
            // A single dot becomes a name.
            assert(parts.last() == "."@);
            assert(parts.drop_last() =~= Seq::<Seq<char>>::empty());
            assert(naming_parts(parts.drop_last()).len() == 0);
            assert(grown.drop_last() =~= Seq::<Seq<char>>::empty());
            assert(grown.last().len() == 2);
            assert(naming_parts(grown).len() == 1);
            assert(naming_parts(parts).len() == 0);
        } else {
            assert(grown.first() == parts.first());
        }
    }
}

/// A path does not lose a part by more at its end.
proof fn lemma_depth_grows(root: Seq<char>, path: Seq<char>)
    requires
        root.len() <= path.len(),
        path.take(root.len() as int) == root,
    ensures
        components(root).len() <= components(path).len(),
    decreases path.len(),
{
    if path.len() == root.len() {
        assert(path.take(root.len() as int) == path);
    } else {
        let shorter = path.drop_last();
        assert(shorter.take(root.len() as int) == path.take(root.len() as int));
        lemma_depth_grows(root, shorter);
        lemma_components_grow(shorter, path.last());
        assert(shorter.push(path.last()) == path);
    }
}

/// A text comes before those that it begins.
proof fn lemma_beginning_comes_first(text: Seq<char>, longer: Seq<char>)
    requires
        text.len() < longer.len(),
        longer.take(text.len() as int) == text,
    ensures
        !text_le(longer, text),
    decreases text.len(),
{
    if text.len() > 0 {
        assert(longer[0] == longer.take(text.len() as int)[0]);
        let rest = longer.drop_first();
        assert(rest.take(text.len() - 1) == text.drop_first()) by {
            assert(rest.take(text.len() - 1) =~= longer.take(text.len() as int).drop_first());
        }
        lemma_beginning_comes_first(text.drop_first(), rest);
    }
}

/// A registered project is found from its own root, whatever else is
/// registered. Where the rules of Windows hold, the lower case of its path has
/// to be its own: two paths can differ letter by letter and have one lower case
/// as a whole.
pub proof fn law_registered_root_matches_itself(registry: ProjectRegistry, index: int)
    requires
        registry.wf(),
        0 <= index < registry.view().len(),
        registry.windows ==> forall|other: int|
            0 <= other < registry.view().len() && other != index ==> identity_of(
                #[trigger] registry.view()[other],
                true,
            ) != identity_of(registry.view()[index], true),
    ensures
        deepest(registry.view(), registry.view()[index], None, registry.windows) == Some(index),
{
    let roots = registry.view();
    let path = roots[index];
    let windows = registry.windows;
    lemma_deepest(roots, path, None, windows);
    if windows {
        assert(is_within(path, None, roots[index], windows));
        let found = deepest(roots, path, None, windows)->0;
        if found != index {
            let whole = identity_of(path, true);
            let around = identity_of(roots[found], true);
            assert(whole != around);
            assert(without_prefix(whole, around) is Some);
            assert(whole.take(around.len() as int) == around);
            lemma_depth_grows(around, whole);
            assert(around.len() < whole.len()) by {
                if around.len() == whole.len() {
                    assert(whole.take(around.len() as int) == whole);
                }
            }
            lemma_beginning_comes_first(around, whole);
            let items = with_identities(roots, windows);
            assert(items[index].0 == whole);
            assert(items[found].0 == around);
            assert(text_le(items[index].0, items[found].0));
        }
    } else {
        let parts = components(path);
        assert(parts.take(parts.len() as int) =~= parts);
        assert(is_within(path, None, roots[index], false));
        let found = deepest(roots, path, None, false)->0;
        assert(components(roots[found]).len() == parts.len());
        assert(parts.take(parts.len() as int) == components(roots[found]));
        assert(same_path(roots[found], roots[index], false));
    }
}

/// A directory belongs to the deepest project around it.
pub proof fn law_deepest_project_is_found(
    roots: Seq<Seq<char>>,
    path: Seq<char>,
    canonical: Option<Seq<char>>,
    windows: bool,
    index: int,
)
    requires
        0 <= index < roots.len(),
        is_within(path, canonical, roots[index], windows),
    ensures
        deepest(roots, path, canonical, windows) matches Some(found) && 0 <= found < roots.len()
            && is_within(path, canonical, roots[found], windows) && depth(roots[index], windows)
            <= depth(roots[found], windows),
{
    lemma_deepest(roots, path, canonical, windows);
}

/// What is found is a project around the directory, and none is found only where
/// none is around it.
pub proof fn law_found_project_is_around(
    roots: Seq<Seq<char>>,
    path: Seq<char>,
    canonical: Option<Seq<char>>,
    windows: bool,
)
    ensures
        match deepest(roots, path, canonical, windows) {
            Some(found) => 0 <= found < roots.len() && is_within(
                path,
                canonical,
                roots[found],
                windows,
            ),
            None => forall|i: int|
                0 <= i < roots.len() ==> !is_within(path, canonical, #[trigger] roots[i], windows),
        },
{
    lemma_deepest(roots, path, canonical, windows);
}

/// A registry that is read has each root of its file once, in order: every root of the
/// file is registered, and no other.
pub proof fn law_registry_has_each_root_once(roots: Seq<Seq<char>>, windows: bool, path: Seq<char>)
    ensures
        has_root(sorted_roots(without_repeats(roots, windows), windows), path, windows) ==> has_root(
            roots,
            path,
            windows,
        ),
        roots.contains(path) ==> has_root(
            sorted_roots(without_repeats(roots, windows), windows),
            path,
            windows,
        ),
        are_distinct(sorted_roots(without_repeats(roots, windows), windows), windows),
        roots_in_order(sorted_roots(without_repeats(roots, windows), windows), windows),
{
    let once = without_repeats(roots, windows);
    let sorted = sorted_roots(once, windows);
    lemma_without_repeats(roots, windows);
    lemma_sorted_roots(once, windows);
    lemma_permuted_roots(once, sorted, windows);
    assert(has_root(once, path, windows) == has_root(sorted, path, windows));
    lemma_each_is_kept(roots, windows, path);
}

proof fn lemma_each_is_kept(roots: Seq<Seq<char>>, windows: bool, path: Seq<char>)
    ensures
        has_root(without_repeats(roots, windows), path, windows) ==> has_root(roots, path, windows),
        roots.contains(path) ==> has_root(without_repeats(roots, windows), path, windows),
    decreases roots.len(),
{
    if roots.len() > 0 {
        let shorter = roots.drop_last();
        let last = roots.last();
        lemma_each_is_kept(shorter, windows, path);
        let before = without_repeats(shorter, windows);
        let once = without_repeats(roots, windows);
        assert(roots[roots.len() - 1] == last);
        assert forall|i: int| 0 <= i < shorter.len() implies #[trigger] roots[i] == shorter[i] by {}
        if has_root(shorter, path, windows) {
            let i = choose|i: int|
                0 <= i < shorter.len() && same_path(#[trigger] shorter[i], path, windows);
            assert(same_path(roots[i], path, windows));
        }
        if has_root(once, path, windows) && !has_root(before, path, windows) {
            let i = choose|i: int|
                0 <= i < once.len() && same_path(#[trigger] once[i], path, windows);
            if i < before.len() {
                assert(same_path(before[i], path, windows));
            }
            assert(same_path(roots[roots.len() - 1], path, windows));
        }
        if roots.contains(path) {
            let i = choose|i: int| 0 <= i < roots.len() && roots[i] == path;
            if i < shorter.len() {
                assert(shorter[i] == path);
                let k = choose|k: int|
                    0 <= k < before.len() && same_path(#[trigger] before[k], path, windows);
                assert(same_path(once[k], path, windows));
            } else if !has_root(before, last, windows) {
                assert(once[before.len() as int] == last);
                assert(same_path(once[before.len() as int], path, windows));
            }
        }
    }
}

} // verus!
