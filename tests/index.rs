use ressa::index::{compute_index_languages, langset_contains, langset_set, IndexableKey, LangNode, Language};

fn leaf(language: Language) -> LangNode {
    LangNode { language, children: vec![] }
}

#[test]
fn subtree_sets_are_unions() {
    let tree = LangNode {
        language: Language::Java,
        children: vec![
            leaf(Language::Java),
            LangNode { language: Language::Python, children: vec![leaf(Language::Go)] },
        ],
    };
    let index = compute_index_languages(&vec![Language::Python, Language::Java], &vec![tree]);
    let root = IndexableKey::new(0);
    assert!(index.language_in_subtree(&Language::Java, root));
    assert!(index.language_in_subtree(&Language::Python, root));
    assert!(index.language_in_subtree(&Language::Go, root));
    assert!(!index.language_in_subtree(&Language::Cpp, root));
    let java_leaf = IndexableKey::new(1);
    assert!(!index.language_in_subtree(&Language::Python, java_leaf));
    let python = IndexableKey::new(2);
    assert!(index.language_in_subtree(&Language::Go, python));
    assert!(!index.language_in_subtree(&Language::Java, python));
    assert_eq!(index.get_roots(&Language::Python), Some(&vec![IndexableKey::new(2)]));
    assert_eq!(index.get_roots(&Language::Java), Some(&vec![IndexableKey::new(0)]));
    assert_eq!(index.get_roots(&Language::Go), None);
}

#[test]
fn wildcard_is_everywhere() {
    let index = compute_index_languages(&vec![], &vec![leaf(Language::Cpp)]);
    assert!(index.language_in_subtree(&Language::Unknown, IndexableKey::new(0)));
    assert!(index.language_in_subtree(&Language::Unknown, IndexableKey::new(99)));
}

#[test]
fn langset_bits() {
    let mut set = 0u32;
    assert!(!langset_set(&mut set, &Language::Go));
    assert!(langset_set(&mut set, &Language::Go));
    assert!(langset_contains(&set, &Language::Go));
    assert!(!langset_contains(&set, &Language::Java));
    assert_eq!(Language::Go.get_index(), 3);
}
