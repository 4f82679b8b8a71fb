use genere::{Error, Gender, Generator};

#[test]
fn seed_determinism_msg() {
    let mut gen = Generator::new();
    gen.add("mood", &["happy", "sad", "angry", "calm"]).unwrap();
    let r1 = gen
        .msg_from_seed("Joe is {mood}, Ann is {{mood}}", &[], 7)
        .unwrap();
    let r2 = gen
        .msg_from_seed("Joe is {mood}, Ann is {{mood}}", &[], 7)
        .unwrap();
    assert_eq!(r1, r2);
}

#[test]
fn memoized_reference_repeats() {
    let mut gen = Generator::new();
    gen.add("item", &["sword", "axe", "bow", "club", "spear", "whip"])
        .unwrap();
    gen.add("pair", &["{item} {item}"]).unwrap();
    for seed in 0..20u64 {
        let s = gen.instantiate_from_seed("pair", seed).unwrap();
        let parts: Vec<&str> = s.split(' ').collect();
        assert_eq!(parts.len(), 2);
        assert_eq!(parts[0], parts[1]);
    }
}

#[test]
fn independent_reference_rerolls() {
    let mut gen = Generator::new();
    gen.add("item", &["sword", "axe", "bow", "club", "spear", "whip"])
        .unwrap();
    gen.add("pair", &["{{item}} {{item}}"]).unwrap();
    let variants = ["sword", "axe", "bow", "club", "spear", "whip"];
    let mut saw_difference = false;
    for seed in 0..50u64 {
        let s = gen.instantiate_from_seed("pair", seed).unwrap();
        let parts: Vec<&str> = s.split(' ').collect();
        assert_eq!(parts.len(), 2);
        assert!(variants.contains(&parts[0]));
        assert!(variants.contains(&parts[1]));
        if parts[0] != parts[1] {
            saw_difference = true;
        }
    }
    assert!(saw_difference);
}

#[test]
fn escape_roundtrip_plain() {
    let plain = String::from("nothing special at [all] {here} a/b plain");
    let out = Generator::post_process(Generator::pre_process(plain.clone()));
    assert_eq!(out, plain);
}

#[test]
fn multiple_gender_markers_rejected() {
    let mut gen = Generator::new();
    gen.add("bad", &["x[m]y[f]"]).unwrap();
    let e = gen.instantiate("bad").unwrap_err();
    assert!(matches!(e, Error::MultipleGenderMarkers(_)));
}

#[test]
fn unknown_symbol_error() {
    let gen = Generator::new();
    let e = gen.instantiate("ghost").unwrap_err();
    assert!(matches!(e, Error::UnknownSymbol(_)));
}

#[test]
fn cyclic_dependency_error() {
    let mut gen = Generator::new();
    gen.add("a", &["{b}"]).unwrap();
    gen.add("b", &["{a}"]).unwrap();
    let e = gen.instantiate("a").unwrap_err();
    assert!(matches!(e, Error::CyclicDependency(_)));
}

#[test]
fn missing_gender_source_error() {
    let mut gen = Generator::new();
    gen.add("plop", &["Joe[m]"]).unwrap();
    gen.add_move(
        "foo[PLOP]".to_string(),
        vec!["He/She is happy".to_string()],
    )
    .unwrap();
    let e = gen.instantiate("foo").unwrap_err();
    assert!(matches!(e, Error::MissingGenderSource(_)));
}

#[test]
fn malformed_json_error() {
    let mut gen = Generator::new();
    let e = gen.add_json("this is not a table").unwrap_err();
    assert!(matches!(e, Error::MalformedInput(_)));
}

#[test]
fn depth_limit_on_self_reinstantiation() {
    let mut gen = Generator::new();
    gen.add("loop", &["x{{loop}}"]).unwrap();
    let e = gen.instantiate("loop").unwrap_err();
    assert!(matches!(e, Error::DepthExceeded));
}

#[test]
fn uppercase_marker_accepted() {
    let mut gen = Generator::new();
    gen.add("plop", &["Joe[M]"]).unwrap();
    gen.add("foo[plop]", &["He/She is happy"]).unwrap();
    assert_eq!(&gen.instantiate("foo").unwrap(), "He is happy");
}

#[test]
fn lowercased_lookup_and_full_uppercase() {
    let mut gen = Generator::new();
    gen.add("FOO", &["hello"]).unwrap();
    assert_eq!(&gen.instantiate("FOO").unwrap(), "HELLO");
    assert_eq!(&gen.instantiate("Foo").unwrap(), "Hello");
    assert_eq!(&gen.instantiate("foo").unwrap(), "hello");
}

#[test]
fn dots_two_segments() {
    let mut gen = Generator::new();
    gen.add("m", &["Joe[m]"]).unwrap();
    gen.add("f", &["Ann[f]"]).unwrap();
    gen.add("wm[m]", &["grand·e"]).unwrap();
    gen.add("wf[f]", &["grand·e"]).unwrap();
    gen.add("wn", &["grand·e"]).unwrap();
    assert_eq!(&gen.instantiate("wm").unwrap(), "grand");
    assert_eq!(&gen.instantiate("wf").unwrap(), "grande");
    assert_eq!(&gen.instantiate("wn").unwrap(), "grand/grande");
}

#[test]
fn dots_three_segments() {
    let mut gen = Generator::new();
    gen.add("m", &["Joe[m]"]).unwrap();
    gen.add("f", &["Ann[f]"]).unwrap();
    gen.add("wm[m]", &["voleu·r·se"]).unwrap();
    gen.add("wf[f]", &["voleu·r·se"]).unwrap();
    gen.add("wn", &["voleu·r·se"]).unwrap();
    assert_eq!(&gen.instantiate("wm").unwrap(), "voleur");
    assert_eq!(&gen.instantiate("wf").unwrap(), "voleuse");
    assert_eq!(&gen.instantiate("wn").unwrap(), "voleur/voleuse");
}

#[test]
fn dots_four_segments() {
    let mut gen = Generator::new();
    gen.add("m", &["Joe[m]"]).unwrap();
    gen.add("f", &["Ann[f]"]).unwrap();
    gen.add("wm[m]", &["chat·on·te·s"]).unwrap();
    gen.add("wf[f]", &["chat·on·te·s"]).unwrap();
    assert_eq!(&gen.instantiate("wm").unwrap(), "chatons");
    assert_eq!(&gen.instantiate("wf").unwrap(), "chattes");
}

#[test]
fn slash_with_neutral_branch() {
    let mut gen = Generator::new();
    gen.add("n", &["Gail[n]"]).unwrap();
    gen.add("w[n]", &["Il/Elle/Iel"]).unwrap();
    assert_eq!(&gen.instantiate("w").unwrap(), "Iel");
}

#[test]
fn set_gender_overrides_nothing_else() {
    let mut gen = Generator::new();
    gen.add("hero", &["the hero"]).unwrap();
    gen.set_gender("who", Gender::Female);
    let s = gen
        .msg("He/She[who] admires {hero}", &[])
        .unwrap();
    assert_eq!(&s, "She admires the hero");
}

#[test]
fn empty_variant_list_yields_empty() {
    let mut gen = Generator::new();
    gen.add("void", &[]).unwrap();
    assert_eq!(&gen.instantiate("void").unwrap(), "");
}

#[test]
fn error_description_names_symbol() {
    let gen = Generator::new();
    let e = gen.instantiate("ghost").unwrap_err();
    let text = e.describe();
    assert!(text.contains("ghost"));
}

#[test]
fn message_escapes_input() {
    let gen = Generator::new();
    let s = gen.msg("tilde~~ and space~ kept", &[]).unwrap();
    assert_eq!(&s, "tilde~ and space kept");
}
