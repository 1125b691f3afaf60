//! The language index: for each language of interest, the roots of the
//! largest subtrees written in it; for every node, the set of languages
//! present in its subtree, as a 32-bit set.

use vstd::prelude::*;

verus! {

broadcast use vstd::std_specs::vec::group_vec_axioms;

/// A source language; `Unknown` also stands for any language.
#[derive(Debug, Clone, Copy, PartialEq, Eq, Structural)]
pub enum Language {
    Java,
    Cpp,
    Python,
    Go,
    Unknown,
}

/// A set of languages, one bit per language.
pub type LanguageSet = u32;

/// Position of a language's bit.
pub open spec fn lang_index(l: Language) -> nat {
    match l {
        Language::Java => 0,
        Language::Cpp => 1,
        Language::Python => 2,
        Language::Go => 3,
        Language::Unknown => 4,
    }
}

/// The set holding just `l`.
pub open spec fn lang_bit(l: Language) -> u32 {
    match l {
        Language::Java => 1,
        Language::Cpp => 2,
        Language::Python => 4,
        Language::Go => 8,
        Language::Unknown => 16,
    }
}

impl Language {
    /// Position of the language's bit in a `LanguageSet`.
    pub fn get_index(&self) -> (r: usize)
        ensures
            r == lang_index(*self),
    {
        match self {
            Language::Java => 0,
            Language::Cpp => 1,
            Language::Python => 2,
            Language::Go => 3,
            Language::Unknown => 4,
        }
    }

    fn bit(&self) -> (r: u32)
        ensures
            r == lang_bit(*self),
    {
        match self {
            Language::Java => 1,
            Language::Cpp => 2,
            Language::Python => 4,
            Language::Go => 8,
            Language::Unknown => 16,
        }
    }
}

/// Whether `lang` is in `langset`.
pub fn langset_contains(langset: &LanguageSet, lang: &Language) -> (r: bool)
    ensures
        r == (*langset & lang_bit(*lang) != 0),
{
    *langset & lang.bit() != 0
}

/// Adds `lang` to `langset`; tells whether it was there before.
pub fn langset_set(langset: &mut LanguageSet, lang: &Language) -> (r: bool)
    ensures
        *final(langset) == *old(langset) | lang_bit(*lang),
        r == (*old(langset) & lang_bit(*lang) != 0),
{
    let was = *langset & lang.bit() != 0;
    *langset = *langset | lang.bit();
    was
}

/// A node of a tree to be indexed: its language and its children.
#[derive(Debug)]
pub struct LangNode {
    pub language: Language,
    pub children: Vec<LangNode>,
}

/// The languages present in the subtree of `n`.
pub open spec fn subtree_langs(n: LangNode) -> u32
    decreases n, 1int, 0int,
{
    lang_bit(n.language) | children_langs(n, n.children.len() as int)
}

/// The languages present under the first `k` children of `n`.
pub open spec fn children_langs(n: LangNode, k: int) -> u32
    decreases n, 0int, k,
{
    if k <= 0 {
        0
    } else if k - 1 < n.children.len() {
        children_langs(n, k - 1) | subtree_langs(n.children[k - 1])
    } else {
        children_langs(n, k - 1)
    }
}

/// The sets recorded for the subtree of `n`, in preorder.
pub open spec fn preorder(n: LangNode) -> Seq<u32>
    decreases n, 1int, 0int,
{
    seq![subtree_langs(n)] + children_preorder(n, n.children.len() as int)
}

/// The sets recorded for the subtrees of the first `k` children of `n`.
pub open spec fn children_preorder(n: LangNode, k: int) -> Seq<u32>
    decreases n, 0int, k,
{
    if k <= 0 {
        Seq::empty()
    } else if k - 1 < n.children.len() {
        children_preorder(n, k - 1) + preorder(n.children[k - 1])
    } else {
        children_preorder(n, k - 1)
    }
}

/// Sets recorded for a forest, tree after tree.
pub open spec fn forest_preorder(ns: Seq<LangNode>) -> Seq<u32>
    decreases ns.len(),
{
    if ns.len() == 0 {
        Seq::empty()
    } else {
        forest_preorder(ns.drop_last()) + preorder(ns.last())
    }
}

/// `n` starts a subtree of a new language: its language differs from the
/// one inherited and was not met on the way down.
pub open spec fn becomes_root(n: LangNode, cur: Language, seen: u32) -> bool {
    n.language != cur && seen & lang_bit(n.language) == 0
}

/// The languages met on the way down, below `n`.
pub open spec fn seen_below(n: LangNode, cur: Language, seen: u32) -> u32 {
    if n.language != cur {
        seen | lang_bit(n.language)
    } else {
        seen
    }
}

/// For each node of the subtree of `n`, in preorder, the language it starts
/// a root of, if it does.
pub open spec fn root_events(n: LangNode, cur: Language, seen: u32) -> Seq<Option<Language>>
    decreases n, 1int, 0int,
{
    seq![if becomes_root(n, cur, seen) { Some(n.language) } else { None }] + children_events(
        n,
        seen_below(n, cur, seen),
        n.children.len() as int,
    )
}

/// Root events of the subtrees of the first `k` children of `n`.
pub open spec fn children_events(n: LangNode, seen: u32, k: int) -> Seq<Option<Language>>
    decreases n, 0int, k,
{
    if k <= 0 {
        Seq::empty()
    } else if k - 1 < n.children.len() {
        children_events(n, seen, k - 1) + root_events(n.children[k - 1], n.language, seen)
    } else {
        children_events(n, seen, k - 1)
    }
}

/// Root events of a forest, tree after tree, each tree starting afresh.
pub open spec fn forest_events(ns: Seq<LangNode>) -> Seq<Option<Language>>
    decreases ns.len(),
{
    if ns.len() == 0 {
        Seq::empty()
    } else {
        forest_events(ns.drop_last()) + root_events(ns.last(), Language::Unknown, 0)
    }
}

/// Keys of the roots listed under `l` among events numbered from `base`:
/// roots of `l`, or of any language when `l` is the wildcard.
pub open spec fn select_roots(ev: Seq<Option<Language>>, l: Language, base: int) -> Seq<IndexableKey>
    decreases ev.len(),
{
    if ev.len() == 0 {
        Seq::empty()
    } else {
        let before = select_roots(ev.drop_last(), l, base);
        match ev.last() {
            Some(x) => if x == l || l == Language::Unknown {
                before.push(IndexableKey { wrapped: (base + ev.len() - 1) as usize })
            } else {
                before
            },
            None => before,
        }
    }
}

proof fn lemma_select_append(a: Seq<Option<Language>>, b: Seq<Option<Language>>, l: Language, base: int)
    ensures
        select_roots(a + b, l, base) == select_roots(a, l, base) + select_roots(b, l, base + a.len()),
    decreases b.len(),
{
    if b.len() == 0 {
        assert(a + b =~= a);
        assert(select_roots(a, l, base) + Seq::<IndexableKey>::empty() =~= select_roots(a, l, base));
    } else {
        lemma_select_append(a, b.drop_last(), l, base);
        assert((a + b).drop_last() =~= a + b.drop_last());
        assert((a + b).last() == b.last());
        let sa = select_roots(a, l, base);
        let sb = select_roots(b.drop_last(), l, base + a.len());
        match b.last() {
            Some(x) => if x == l || l == Language::Unknown {
                assert(sa + sb.push(IndexableKey { wrapped: (base + a.len() + b.len() - 1) as usize }) =~= (sa + sb).push(
                    IndexableKey { wrapped: (base + (a + b).len() - 1) as usize },
                ));
            },
            None => {},
        }
    }
}

proof fn lemma_events_len(n: LangNode, cur: Language, seen: u32)
    ensures
        root_events(n, cur, seen).len() == preorder(n).len(),
    decreases n, 1int, 0int,
{
    lemma_children_events_len(n, seen_below(n, cur, seen), n.children.len() as int);
}

proof fn lemma_children_events_len(n: LangNode, seen: u32, k: int)
    ensures
        children_events(n, seen, k).len() == children_preorder(n, k).len(),
    decreases n, 0int, k,
{
    if k > 0 {
        lemma_children_events_len(n, seen, k - 1);
        if k - 1 < n.children.len() {
            lemma_events_len(n.children[k - 1], n.language, seen);
        }
    }
}

/// A node's identity: its position in preorder over the indexed forest.
#[derive(Debug, Clone, Copy, PartialEq, Eq, Hash, Structural)]
pub struct IndexableKey {
    pub wrapped: usize,
}

impl IndexableKey {
    /// The key of the node at preorder position `wrapped`.
    pub fn new(wrapped: usize) -> (r: IndexableKey)
        ensures
            r.wrapped == wrapped,
    {
        IndexableKey { wrapped }
    }
}

/// The index of a forest.
pub struct LaastIndex {
    language_index: Vec<(Language, Vec<IndexableKey>)>,
    ast_languages: Vec<LanguageSet>,
}

impl LaastIndex {
    /// The set recorded for each node, in preorder.
    pub closed spec fn recorded(&self) -> Seq<u32> {
        self.ast_languages@
    }

    /// The roots listed for each language indexed on.
    pub closed spec fn root_lists(&self) -> Seq<Seq<IndexableKey>> {
        self.language_index@.map_values(|e: (Language, Vec<IndexableKey>)| e.1@)
    }

    /// The languages indexed on.
    pub closed spec fn root_langs(&self) -> Seq<Language> {
        self.language_index@.map_values(|e: (Language, Vec<IndexableKey>)| e.0)
    }

    /// The roots recorded for `language`, if it is indexed on.
    pub fn get_roots(&self, language: &Language) -> (r: Option<&Vec<IndexableKey>>)
        ensures
            match r {
                Some(v) => exists|i: int|
                    0 <= i < self.root_langs().len() && self.root_langs()[i] == *language && self.root_lists()[i] == v@,
                None => forall|i: int| 0 <= i < self.root_langs().len() ==> self.root_langs()[i] != *language,
            },
    {
        let mut i: usize = 0;
        while i < self.language_index.len()
            invariant
                i <= self.language_index.len(),
                forall|j: int| 0 <= j < i ==> self.root_langs()[j] != *language,
            decreases self.language_index.len() - i,
        {
            if self.language_index[i].0 == *language {
                assert(self.root_langs()[i as int] == *language);
                assert(self.root_lists()[i as int] == self.language_index@[i as int].1@);
                return Some(&self.language_index[i].1);
            }
            i += 1;
        }
        None
    }

    /// Whether `language` occurs in the subtree of node `subtree`; the
    /// wildcard `Unknown` occurs everywhere.
    pub fn language_in_subtree(&self, language: &Language, subtree: IndexableKey) -> (r: bool)
        requires
            *language == Language::Unknown || subtree.wrapped < self.recorded().len(),
        ensures
            *language == Language::Unknown ==> r,
            *language != Language::Unknown ==> r == (self.recorded()[subtree.wrapped as int] & lang_bit(*language) != 0),
    {
        if *language == Language::Unknown {
            return true;
        }
        langset_contains(&self.ast_languages[subtree.wrapped], language)
    }

    /// Adds `node` to the roots of its language and to those of the
    /// wildcard, where these are indexed on.
    fn add_if_valid(&mut self, node: IndexableKey, language: Language)
        ensures
            final(self).recorded() == old(self).recorded(),
            final(self).root_lists().len() == old(self).root_lists().len(),
            final(self).root_langs() == old(self).root_langs(),
            final(self).root_lists().len() == old(self).root_lists().len(),
            forall|j: int| 0 <= j < old(self).root_lists().len() ==> #[trigger] final(self).root_lists()[j] == old(self).root_lists()[j] + if old(self).root_langs()[j] == language || old(self).root_langs()[j] == Language::Unknown {
                seq![node]
            } else {
                Seq::<IndexableKey>::empty()
            },
    {
        let mut i: usize = 0;
        while i < self.language_index.len()
            invariant
                i <= self.language_index.len(),
                self.recorded() == old(self).recorded(),
                self.language_index.len() == old(self).language_index.len(),
                self.root_langs() == old(self).root_langs(),
                self.root_lists().len() == old(self).root_lists().len(),
                forall|j: int| 0 <= j < i ==> #[trigger] self.root_lists()[j] == old(self).root_lists()[j] + if old(self).root_langs()[j] == language || old(self).root_langs()[j] == Language::Unknown {
                    seq![node]
                } else {
                    Seq::<IndexableKey>::empty()
                },
                forall|j: int| i <= j < self.root_lists().len() ==> #[trigger] self.root_lists()[j] == old(self).root_lists()[j],
            decreases self.language_index.len() - i,
        {
            let ghost before = *self;
            if self.language_index[i].0 == language || self.language_index[i].0 == Language::Unknown {
                let (l, mut v) = self.language_index.remove(i);
                v.push(node);
                self.language_index.insert(i, (l, v));
                assert(self.root_langs() =~= before.root_langs());
                assert forall|j: int| 0 <= j < self.root_lists().len() && j != i implies #[trigger] self.root_lists()[j] == before.root_lists()[j] by {
                    assert(self.language_index@[j] == before.language_index@[j]);
                }
                assert(self.root_lists()[i as int] == before.root_lists()[i as int].push(node));
                assert(before.root_lists()[i as int] == old(self).root_lists()[i as int]);
                assert(old(self).root_lists()[i as int].push(node) =~= old(self).root_lists()[i as int] + seq![node]);
            } else {
                assert(old(self).root_lists()[i as int] + Seq::<IndexableKey>::empty() =~= old(self).root_lists()[i as int]);
            }
            i += 1;
        }
    }
}

/// Indexes the subtree of `node`, in preorder: when its language differs
/// from the one inherited and has not been met on the way down, the node
/// becomes a root for it. Gives the languages of the subtree.
fn index(current_lang: Language, node: &LangNode, curr_langs: LanguageSet, indices: &mut LaastIndex) -> (r: LanguageSet)
    ensures
        r == subtree_langs(*node),
        final(indices).recorded() == old(indices).recorded() + preorder(*node),
        final(indices).root_lists().len() == old(indices).root_lists().len(),
        final(indices).root_langs() == old(indices).root_langs(),
        final(indices).root_lists().len() == old(indices).root_lists().len(),
        forall|j: int| 0 <= j < old(indices).root_lists().len() ==> #[trigger] final(indices).root_lists()[j]
            == old(indices).root_lists()[j] + select_roots(
            root_events(*node, current_lang, curr_langs),
            old(indices).root_langs()[j],
            old(indices).recorded().len() as int,
        ),
    decreases node,
{
    let ghost cur0 = current_lang;
    let ghost seen0 = curr_langs;
    let ghost lists0 = indices.root_lists();
    let ghost langs0 = indices.root_langs();
    let ghost base = indices.recorded().len() as int;
    let ghost ev0 = seq![if becomes_root(*node, cur0, seen0) { Some(node.language) } else { None::<Language> }];
    let mut current_lang = current_lang;
    let mut curr_langs = curr_langs;
    let id = indices.ast_languages.len();
    let new_lang = node.language;
    if new_lang != current_lang {
        if !langset_contains(&curr_langs, &new_lang) {
            indices.add_if_valid(IndexableKey::new(id), new_lang);
        }
        langset_set(&mut curr_langs, &new_lang);
        current_lang = new_lang;
    }
    proof {
        assert forall|j: int| 0 <= j < lists0.len() implies #[trigger] indices.root_lists()[j] == lists0[j] + select_roots(ev0, langs0[j], base) by {
            assert(ev0.drop_last() =~= Seq::<Option<Language>>::empty());
            assert(ev0.len() == 1);
            assert(select_roots(ev0.drop_last(), langs0[j], base) == Seq::<IndexableKey>::empty());
            if !becomes_root(*node, cur0, seen0) {
                assert(lists0[j] + Seq::<IndexableKey>::empty() =~= lists0[j]);
            } else {
                assert(Seq::<IndexableKey>::empty().push(IndexableKey { wrapped: id }) =~= seq![IndexableKey { wrapped: id }]);
                assert(lists0[j] + Seq::<IndexableKey>::empty() =~= lists0[j]);
            }
        }
    }
    let ghost start = indices.recorded();
    indices.ast_languages.push(0);
    let mut my_set: LanguageSet = current_lang.bit();
    assert(my_set | 0u32 == my_set) by (bit_vector);
    assert(indices.recorded() =~= start + seq![0u32] + children_preorder(*node, 0));
    assert(ev0 + children_events(*node, curr_langs, 0) =~= ev0);
    let mut i: usize = 0;
    while i < node.children.len()
        invariant
            i <= node.children.len(),
            id == start.len(),
            base == start.len(),
            ev0.len() == 1,
            ev0 == seq![if becomes_root(*node, cur0, seen0) { Some(node.language) } else { None::<Language> }],
            current_lang == node.language,
            curr_langs == seen_below(*node, cur0, seen0),
            my_set == lang_bit(node.language) | children_langs(*node, i as int),
            indices.recorded() == start + seq![0u32] + children_preorder(*node, i as int),
            indices.root_lists().len() == old(indices).root_lists().len(),
            indices.root_langs() == langs0,
            indices.root_lists().len() == lists0.len(),
            forall|j: int| 0 <= j < lists0.len() ==> #[trigger] indices.root_lists()[j] == lists0[j] + select_roots(
                ev0 + children_events(*node, curr_langs, i as int),
                langs0[j],
                base,
            ),
        decreases node.children.len() - i,
    {
        let ghost lists_before = indices.root_lists();
        let ghost evs = ev0 + children_events(*node, curr_langs, i as int);
        proof {
            lemma_children_events_len(*node, curr_langs, i as int);
        }
        let sub = index(current_lang, &node.children[i], curr_langs, indices);
        proof {
            let a = lang_bit(node.language);
            let b = children_langs(*node, i as int);
            let c = subtree_langs(node.children[i as int]);
            assert((a | b) | c == a | (b | c)) by (bit_vector);
            assert(children_langs(*node, i + 1) == b | c);
            assert(children_preorder(*node, i + 1) == children_preorder(*node, i as int) + preorder(node.children[i as int]));
            let child_ev = root_events(node.children[i as int], node.language, curr_langs);
            assert(children_events(*node, curr_langs, i + 1) == children_events(*node, curr_langs, i as int) + child_ev);
            assert(ev0 + children_events(*node, curr_langs, i + 1) =~= evs + child_ev);
            assert forall|j: int| 0 <= j < lists0.len() implies #[trigger] indices.root_lists()[j] == lists0[j] + select_roots(
                ev0 + children_events(*node, curr_langs, i + 1),
                langs0[j],
                base,
            ) by {
                lemma_select_append(evs, child_ev, langs0[j], base);
                assert(evs.len() == 1 + children_events(*node, curr_langs, i as int).len());
                assert(children_events(*node, curr_langs, i as int).len() == children_preorder(*node, i as int).len());
                assert(base + evs.len() == start.len() + 1 + children_preorder(*node, i as int).len());
                assert(lists0[j] + select_roots(evs, langs0[j], base) + select_roots(child_ev, langs0[j], base + evs.len())
                    =~= lists0[j] + (select_roots(evs, langs0[j], base) + select_roots(child_ev, langs0[j], base + evs.len())));
            }
        }
        my_set = my_set | sub;
        i += 1;
        assert(indices.recorded() =~= start + seq![0u32] + children_preorder(*node, i as int));
    }
    indices.ast_languages.set(id, my_set);
    proof {
        assert(indices.recorded() =~= start + preorder(*node));
        assert(root_events(*node, cur0, seen0) == ev0 + children_events(*node, curr_langs, node.children.len() as int));
    }
    my_set
}

proof fn lemma_forest_len(ns: Seq<LangNode>)
    ensures
        forest_events(ns).len() == forest_preorder(ns).len(),
    decreases ns.len(),
{
    if ns.len() > 0 {
        lemma_forest_len(ns.drop_last());
        lemma_events_len(ns.last(), Language::Unknown, 0);
    }
}

/// Some entry of `entries` is for language `l`.
pub open spec fn lists_lang(entries: Seq<(Language, Vec<IndexableKey>)>, l: Language) -> bool {
    exists|q: int| 0 <= q < entries.len() && entries[q].0 == l
}

/// Indexes `nodes` for the given languages: records, for each language,
/// the roots of the largest subtrees written in it, and for every node, in
/// preorder over the forest, the languages present in its subtree.
pub fn compute_index_languages(languages: &Vec<Language>, nodes: &Vec<LangNode>) -> (r: LaastIndex)
    ensures
        r.recorded() == forest_preorder(nodes@),
        forall|i: int| 0 <= i < r.root_langs().len() ==> languages@.contains(#[trigger] r.root_langs()[i]),
        forall|l: Language| #[trigger] languages@.contains(l) ==> r.root_langs().contains(l),
        forall|a: int, b: int| 0 <= a < b < r.root_langs().len() ==> r.root_langs()[a] != r.root_langs()[b],
        r.root_lists().len() == r.root_langs().len(),
        forall|j: int| 0 <= j < r.root_lists().len() ==> #[trigger] r.root_lists()[j] == select_roots(
            forest_events(nodes@),
            r.root_langs()[j],
            0,
        ),
{
    let mut language_index: Vec<(Language, Vec<IndexableKey>)> = Vec::new();
    let mut i: usize = 0;
    while i < languages.len()
        invariant
            i <= languages.len(),
            forall|j: int| 0 <= j < language_index.len() ==> languages@.contains(#[trigger] language_index@[j].0),
            forall|k: int| 0 <= k < i ==> #[trigger] lists_lang(language_index@, languages@[k]),
            forall|q: int| 0 <= q < language_index.len() ==> (#[trigger] language_index@[q]).1@.len() == 0,
            forall|a: int, b: int| 0 <= a < b < language_index.len() ==> language_index@[a].0 != language_index@[b].0,
        decreases languages.len() - i,
    {
        let l = languages[i];
        let mut present = false;
        let mut j: usize = 0;
        while j < language_index.len()
            invariant
                i < languages.len(),
                l == languages@[i as int],
                forall|q: int| 0 <= q < language_index.len() ==> languages@.contains(#[trigger] language_index@[q].0),
                forall|k: int| 0 <= k < i ==> #[trigger] lists_lang(language_index@, languages@[k]),
                forall|q: int| 0 <= q < language_index.len() ==> (#[trigger] language_index@[q]).1@.len() == 0,
                forall|a: int, b: int| 0 <= a < b < language_index.len() ==> language_index@[a].0 != language_index@[b].0,
                j <= language_index.len(),
                present ==> lists_lang(language_index@, l),
                !present ==> forall|q: int| 0 <= q < j ==> #[trigger] language_index@[q].0 != l,
            decreases language_index.len() - j,
        {
            if language_index[j].0 == l {
                present = true;
            }
            j += 1;
        }
        if !present {
            let ghost before = language_index@;
            language_index.push((l, Vec::new()));
            assert(language_index@[language_index.len() - 1].0 == l);
            assert forall|k: int| 0 <= k < i implies #[trigger] lists_lang(language_index@, languages@[k]) by {
                assert(lists_lang(before, languages@[k]));
                let q = choose|q: int| 0 <= q < before.len() && before[q].0 == languages@[k];
                assert(language_index@[q] == before[q]);
            }
        }
        assert(languages@[i as int] == l);
        assert(lists_lang(language_index@, languages@[i as int]));
        i += 1;
    }
    let mut indices = LaastIndex { language_index, ast_languages: Vec::new() };
    let ghost roots0 = indices.root_langs();
    proof {
        lemma_forest_len(nodes@.take(0));
        assert forall|j: int| 0 <= j < indices.root_lists().len() implies #[trigger] indices.root_lists()[j] == select_roots(
            forest_events(nodes@.take(0)),
            roots0[j],
            0,
        ) by {
            assert(indices.language_index@[j].1@.len() == 0);
            assert(indices.root_lists()[j] =~= Seq::<IndexableKey>::empty());
            assert(forest_events(nodes@.take(0)) =~= Seq::<Option<Language>>::empty());
        }
        assert forall|q: int| 0 <= q < roots0.len() implies languages@.contains(#[trigger] roots0[q]) by {
            assert(roots0[q] == indices.language_index@[q].0);
        }
        assert forall|l: Language| #[trigger] languages@.contains(l) implies roots0.contains(l) by {
            let k = choose|k: int| 0 <= k < languages.len() && languages@[k] == l;
            assert(lists_lang(indices.language_index@, languages@[k]));
            let q = choose|q: int| 0 <= q < indices.language_index@.len() && indices.language_index@[q].0 == l;
            assert(roots0[q] == l);
        }
        assert(forest_preorder(nodes@.take(0)) =~= Seq::<u32>::empty());
    }
    let mut k: usize = 0;
    while k < nodes.len()
        invariant
            k <= nodes.len(),
            indices.recorded() == forest_preorder(nodes@.take(k as int)),
            indices.root_langs() == roots0,
            indices.root_lists().len() == roots0.len(),
            forall|j: int| 0 <= j < roots0.len() ==> #[trigger] indices.root_lists()[j] == select_roots(
                forest_events(nodes@.take(k as int)),
                roots0[j],
                0,
            ),
        decreases nodes.len() - k,
    {
        let ghost before = indices.root_lists();
        proof {
            lemma_forest_len(nodes@.take(k as int));
        }
        index(Language::Unknown, &nodes[k], 0, &mut indices);
        proof {
            assert(nodes@.take(k + 1).drop_last() =~= nodes@.take(k as int));
            let prev = forest_events(nodes@.take(k as int));
            let ev = root_events(nodes@[k as int], Language::Unknown, 0);
            assert(forest_events(nodes@.take(k + 1)) == prev + ev);
            assert forall|j: int| 0 <= j < roots0.len() implies #[trigger] indices.root_lists()[j] == select_roots(
                forest_events(nodes@.take(k + 1)),
                roots0[j],
                0,
            ) by {
                lemma_select_append(prev, ev, roots0[j], 0);
            }
        }
        k += 1;
    }
    assert(nodes@.take(k as int) =~= nodes@);
    proof {
        assert forall|a: int, b: int| 0 <= a < b < roots0.len() implies roots0[a] != roots0[b] by {
            assert(roots0[a] == indices.language_index@[a].0);
            assert(roots0[b] == indices.language_index@[b].0);
        }
    }
    indices
}

/// The set recorded for a node holds its own language and exactly the
/// languages recorded for its children: it is the union of its own bit and
/// the sets of all of its descendants.
pub proof fn lemma_recorded_union(n: LangNode)
    ensures
        preorder(n)[0] == lang_bit(n.language) | children_langs(n, n.children.len() as int),
        forall|i: int| 0 <= i < n.children.len() ==> #[trigger] preorder(n.children[i])[0] | preorder(n)[0] == preorder(n)[0],
        preorder(n)[0] & lang_bit(n.language) == lang_bit(n.language),
{
    assert forall|i: int| 0 <= i < n.children.len() implies #[trigger] preorder(n.children[i])[0] | preorder(n)[0] == preorder(n)[0] by {
        lemma_child_within(n, n.children.len() as int, i);
        let c = subtree_langs(n.children[i]);
        let all = children_langs(n, n.children.len() as int);
        let a = lang_bit(n.language);
        assert(c | all == all ==> c | (a | all) == a | all) by (bit_vector);
    }
    let a = lang_bit(n.language);
    let b = children_langs(n, n.children.len() as int);
    assert((a | b) & a == a) by (bit_vector);
}

/// Position of the `i`-th child of `n` in the preorder of `n`'s subtree.
pub open spec fn child_position(n: LangNode, i: int) -> int {
    1 + children_preorder(n, i).len() as int
}

proof fn lemma_children_prefix(n: LangNode, i: int, k: int)
    requires
        0 <= i < k <= n.children.len(),
    ensures
        children_preorder(n, k).len() > children_preorder(n, i).len(),
        children_preorder(n, k)[children_preorder(n, i).len() as int] == preorder(n.children[i])[0],
    decreases k,
{
    if k == i + 1 {
        assert(children_preorder(n, k) == children_preorder(n, i) + preorder(n.children[i]));
    } else {
        lemma_children_prefix(n, i, k - 1);
        assert(children_preorder(n, k) == children_preorder(n, k - 1) + preorder(n.children[k - 1]));
    }
}

/// In the sets recorded for the subtree of `n`, the entry at the position
/// of each child is the set of that child's subtree; with
/// `lemma_recorded_union`, a node's entry is its own bit joined with the
/// entries of its children, at every node.
pub proof fn lemma_child_recorded(n: LangNode, i: int)
    requires
        0 <= i < n.children.len(),
    ensures
        0 < child_position(n, i) < preorder(n).len(),
        preorder(n)[child_position(n, i)] == preorder(n.children[i])[0],
        preorder(n.children[i])[0] == subtree_langs(n.children[i]),
{
    lemma_children_prefix(n, i, n.children.len() as int);
}

/// Position of the root of the `k`-th tree in the preorder of a forest.
pub open spec fn tree_position(ns: Seq<LangNode>, k: int) -> int {
    forest_preorder(ns.take(k)).len() as int
}

/// The sets recorded for a forest hold, from the position of each tree on,
/// the sets recorded for that tree.
pub proof fn lemma_tree_recorded(ns: Seq<LangNode>, k: int, x: int)
    requires
        0 <= k < ns.len(),
        0 <= x < preorder(ns[k]).len(),
    ensures
        tree_position(ns, k) + x < forest_preorder(ns).len(),
        forest_preorder(ns)[tree_position(ns, k) + x] == preorder(ns[k])[x],
    decreases ns.len(),
{
    let init = ns.drop_last();
    if k == ns.len() - 1 {
        assert(ns.take(k) =~= init);
    } else {
        lemma_tree_recorded(init, k, x);
        assert(ns.take(k) =~= init.take(k));
        assert(init[k] == ns[k]);
    }
}

proof fn lemma_child_within(n: LangNode, k: int, i: int)
    requires
        0 <= i < k <= n.children.len(),
    ensures
        subtree_langs(n.children[i]) | children_langs(n, k) == children_langs(n, k),
    decreases k,
{
    let c = subtree_langs(n.children[i]);
    let prev = children_langs(n, k - 1);
    let last = subtree_langs(n.children[k - 1]);
    if i < k - 1 {
        lemma_child_within(n, k - 1, i);
        assert(c | prev == prev ==> c | (prev | last) == prev | last) by (bit_vector);
    } else {
        assert(last | (prev | last) == prev | last) by (bit_vector);
    }
}

} // verus!
