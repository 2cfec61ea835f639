use weighted_code_coverage::error::Error;
use weighted_code_coverage::scope::{display_name, to_decimal, ScopeKind, ScopeNode, ScopeTree};

fn node(name: Option<&str>, kind: ScopeKind, start: usize, end: usize) -> ScopeNode {
    ScopeNode {
        name: name.map(String::from),
        kind,
        start_line: start,
        end_line: end,
        cyclomatic: 1,
        cyclomatic_sum: 1,
        cognitive: 0,
        cognitive_sum: 0,
        ploc: 1,
        parent: 0,
    }
}

fn sample() -> ScopeTree {
    let mut t = ScopeTree::new(node(Some("main.rs"), ScopeKind::File, 1, 200));
    let outer = t.add_child(0, node(Some("Outer"), ScopeKind::Other, 36, 148));
    let inner = t.add_child(outer, node(Some("Inner"), ScopeKind::Function, 47, 74));
    t.add_child(inner, node(Some("closure"), ScopeKind::Function, 50, 52));
    t.add_child(outer, node(None, ScopeKind::Function, 80, 90));
    t.add_child(0, node(Some("main"), ScopeKind::Function, 150, 199));
    t
}

#[test]
fn add_child_returns_new_index() {
    let mut t = ScopeTree::new(node(None, ScopeKind::File, 1, 10));
    assert_eq!(t.add_child(0, node(None, ScopeKind::Function, 2, 3)), 1);
    assert_eq!(t.nodes[1].parent, 0);
}

#[test]
fn minimum_enclosing_scope_descends() {
    let t = sample();
    assert_eq!(t.minimum_enclosing_scope(0, 51), 3);
    assert_eq!(t.minimum_enclosing_scope(0, 60), 2);
    assert_eq!(t.minimum_enclosing_scope(0, 40), 1);
    assert_eq!(t.minimum_enclosing_scope(0, 160), 5);
    assert_eq!(t.minimum_enclosing_scope(0, 149), 0);
    assert_eq!(t.minimum_enclosing_scope(2, 100), 2);
}

#[test]
fn siblings_do_not_overlap_in_sample() {
    let t = sample();
    for i in 1..t.nodes.len() {
        for j in (i + 1)..t.nodes.len() {
            if t.nodes[i].parent == t.nodes[j].parent {
                assert!(
                    t.nodes[i].end_line < t.nodes[j].start_line
                        || t.nodes[j].end_line < t.nodes[i].start_line
                );
            }
        }
    }
}

#[test]
fn function_scopes_in_index_order() {
    assert_eq!(sample().function_scopes(), vec![2, 3, 4, 5]);
}

#[test]
fn qualified_names_follow_nesting() {
    let t = sample();
    assert_eq!(t.qualified_name(2), "Outer(36,148)/Inner(47,74)");
    assert_eq!(t.qualified_name(3), "Outer(36,148)/Inner(47,74)/closure(50,52)");
    assert_eq!(t.qualified_name(5), "main(150,199)");
    assert_eq!(t.qualified_name(0), "");
}

#[test]
fn function_labels() {
    let t = sample();
    assert_eq!(t.function_label(2), Ok(String::from("Inner (47, 74)")));
    assert_eq!(t.function_label(4), Err(Error::PathConversionError()));
    assert_eq!(display_name(&String::from("f"), 1, 10), "f (1, 10)");
}

#[test]
fn decimal_numerals() {
    assert_eq!(to_decimal(0), "0");
    assert_eq!(to_decimal(7), "7");
    assert_eq!(to_decimal(1207), "1207");
    assert_eq!(to_decimal(usize::MAX), usize::MAX.to_string());
}

#[test]
fn enumerate_functions_with_qualified_names() {
    let f = sample().enumerate_function_scopes();
    let names: Vec<(usize, &str)> = f.iter().map(|(i, n)| (*i, n.as_str())).collect();
    assert_eq!(
        names,
        vec![
            (2, "Outer(36,148)/Inner(47,74)"),
            (3, "Outer(36,148)/Inner(47,74)/closure(50,52)"),
            (4, "Outer(36,148)/(80,90)"),
            (5, "main(150,199)"),
        ]
    );
}
