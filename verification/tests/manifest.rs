use backup_games::manifest::Manifest;

fn c(s: &str) -> Vec<char> {
    s.chars().collect()
}

#[test]
fn render_sorts_by_name() {
    let m = Manifest::parse("b=2\na=1\n");
    assert_eq!(m.render(), "a=1\nb=2\n");
    assert_eq!(m.len(), 2);
}

#[test]
fn parse_ignores_lines_it_cannot_read() {
    let m = Manifest::parse("junk\nx=notnum\n y = 5 \n=3\n");
    assert_eq!(m.get(&c("y")), Some(5));
    assert_eq!(m.get(&c("x")), None);
    assert_eq!(m.get(&c("junk")), None);
    assert_eq!(m.get(&c("")), Some(3));
    assert_eq!(m.len(), 2);
}

#[test]
fn later_lines_win() {
    let m = Manifest::parse("a=1\na=2\n");
    assert_eq!(m.get(&c("a")), Some(2));
    assert_eq!(m.len(), 1);
}

#[test]
fn value_after_first_equals_sign() {
    let m = Manifest::parse("a=b=3\nk=4=\n");
    assert_eq!(m.get(&c("a")), None);
    assert_eq!(m.get(&c("k")), None);
}

#[test]
fn write_then_read_gives_the_same_manifest() {
    let mut m = Manifest::new();
    m.insert(&c("Zelda"), 1725029869);
    m.insert(&c("celeste"), 0);
    m.insert(&c("honkers-railway-launcher/HSR"), 42);
    m.insert(&c("Zelda"), 7);
    let text = m.render();
    assert_eq!(text, "Zelda=7\nceleste=0\nhonkers-railway-launcher/HSR=42\n");
    let back = Manifest::parse(&text);
    assert_eq!(back.render(), text);
    assert_eq!(back.get(&c("Zelda")), Some(7));
    assert_eq!(back.get(&c("celeste")), Some(0));
    assert_eq!(back.get(&c("honkers-railway-launcher/HSR")), Some(42));
}

#[test]
fn empty_manifest_renders_empty() {
    let m = Manifest::new();
    assert_eq!(m.render(), "");
    assert_eq!(Manifest::parse("").len(), 0);
}
