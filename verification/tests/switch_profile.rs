use ronin::switch_profile::heavy_switch_bodies;

#[test]
fn heavy_bodies_alternate_user_and_fenced_python() {
    let bodies = heavy_switch_bodies();
    assert_eq!(bodies.len(), 16);
    assert_eq!(
        bodies[0],
        "Walk through the classifier and point out the expensive branch. (0)"
    );
    assert!(bodies[1].starts_with("Here is pass 0.\n\n```python\ndef classify(rows):\n"));
    assert!(bodies[15].ends_with("len(rows) == 0}\n\n```\n"));
    assert_eq!(bodies[1].matches("def classify").count(), 30);
    assert!(bodies[14].ends_with("(7)"));
}
