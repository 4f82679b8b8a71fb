use genere::{Gender, Generator};

#[test]
fn add_1() {
    let mut gen = Generator::new();
    gen.add("Test", &["foo", "bar"]).unwrap();
}

#[test]
fn add_json() {
    let mut gen = Generator::new();
    gen.add_json(
        r#"
{
   "Test": ["foo", "bar"]
}"#,
    )
    .unwrap();
}

#[test]
fn missing_symbol() {
    let gen = Generator::new();
    assert!(gen.instantiate("foo").is_err());
}

#[test]
fn replacement_1() {
    let mut gen = Generator::new();
    gen.add("foo", &["hello"]).unwrap();
    gen.add("bar", &["{foo} world"]).unwrap();
    assert_eq!(gen.instantiate("bar").unwrap(), String::from("hello world"));
}

#[test]
fn replacement_2() {
    let mut gen = Generator::new();
    gen.add("foo", &["hello"]).unwrap();
    gen.add("bar", &["world"]).unwrap();
    gen.add("baz", &["{foo} {bar}"]).unwrap();
    assert_eq!(gen.instantiate("baz").unwrap(), String::from("hello world"));
}

#[test]
fn gender_1() {
    let mut gen = Generator::new();
    gen.add("foo[plop]", &["He/She is happy"]).unwrap();
    gen.set_gender("plop", Gender::Male);
    assert_eq!(&gen.instantiate("foo").unwrap(), "He is happy");
    gen.set_gender("plop", Gender::Female);
    assert_eq!(&gen.instantiate("foo").unwrap(), "She is happy");
}

#[test]
fn gender_2() {
    let mut gen = Generator::new();
    gen.add("plop", &["Joe[m]"]).unwrap();
    gen.add("foo[plop]", &["He/She is happy"]).unwrap();
    assert_eq!(&gen.instantiate("foo").unwrap(), "He is happy");
}

#[test]
fn gender_3() {
    let mut gen = Generator::new();
    gen.add("plop", &["Joe[m]"]).unwrap();
    gen.add("foo", &["He/She[plop] is happy"]).unwrap();
    assert_eq!(&gen.instantiate("foo").unwrap(), "He is happy");
}

#[test]
fn gender_4() {
    let mut gen = Generator::new();
    gen.add("arme", &["batte[f]"]).unwrap();
    gen.add("foo", &["Un homme au/à~ la[arme] {arme} facile"])
        .unwrap();
    assert_eq!(
        &gen.instantiate("foo").unwrap(),
        "Un homme à la batte facile"
    );
}

#[test]
fn cyclic() {
    let mut gen = Generator::new();
    let json = r#"
{
   "a[b]": ["Foo"],
   "b[a]": ["Bar"]
}"#;
    gen.add_json(json).unwrap();
    assert!(gen.instantiate("a").is_err());
}

#[test]
fn unexisting() {
    let mut gen = Generator::new();
    let json = r#"
{
   "a[b]": ["Foo"],
   "b[c]": ["Bar"]
}"#;
    gen.add_json(json).unwrap();
    assert!(gen.instantiate("a").is_err());
}

#[test]
fn pre_process() {
    let s = Generator::pre_process(r"foobarbaz".to_string());
    assert_eq!(&s, "foobarbaz");

    let s = Generator::pre_process(r"~foobarbaz".to_string());
    assert_eq!(&s, "foobarbaz");

    let s = Generator::pre_process(r"~~foobarbaz".to_string());
    assert_eq!(&s, r"~<tilde>foobarbaz");

    let s = Generator::pre_process(r"foo~ bar~ baz".to_string());
    assert_eq!(&s, r"foo~<space>bar~<space>baz");

    let s = Generator::pre_process(r"~[foobarbaz~]".to_string());
    assert_eq!(&s, r"~<leftsquare>foobarbaz~<rightsquare>");

    let s = Generator::pre_process(r"~{foobarbaz~}".to_string());
    assert_eq!(&s, r"~<leftcurly>foobarbaz~<rightcurly>");

    let s = Generator::pre_process(r"foo/bar/baz".to_string());
    assert_eq!(&s, r"foo/bar/baz");

    let s = Generator::pre_process(r"foo~/bar~/baz".to_string());
    assert_eq!(&s, r"foo~<slash>bar~<slash>baz");

    let s = Generator::pre_process(r"foo~·bar~·baz".to_string());
    assert_eq!(&s, r"foo~<median>bar~<median>baz");
}

#[test]
fn post_process() {
    let s = String::from("No characters to replace here");
    let new_s = Generator::post_process(Generator::pre_process(s.clone()));
    assert_eq!(s, new_s);

    let s = String::from(r"~[Characters~] ~{to~} replace~ here~/and there~~");
    let new_s = Generator::post_process(Generator::pre_process(s));
    assert_eq!(&new_s, r"[Characters] {to} replace here/and there~");
}

#[test]
fn a_bit_all() {
    let json = r#"
{
   "object": ["~[lame~][f]"],
   "main": ["~{Vous~} avez un·e[object] {object}"]
}
"#;
    let mut gen = Generator::new();
    gen.add_json(json).unwrap();
    let s = gen.instantiate("main").unwrap();
    assert_eq!(&s, r"{Vous} avez une [lame]");
}

#[test]
fn seed() {
    let json = r#"
{
    "hero": ["John[m]", "Olivia[f]", "Gail[n]", "Tom[m]", "Judi[f]"],
    "job[hero]": ["sorci·er·ère", "guerri·er·ère", "voleu·r·se", "barbare", "archer/archère"],
    "arme": ["hache[f]", "épée[f]", "gourdin[m]", "arc[m]", "masse[f]"],
    "adjectif[arme]": ["tranchant·e", "imposant·e", "étincelant·e", "rouillé·e", "brutal·e"],
    "description": ["{hero}, un·e[hero] {job} avec un·e[arme] {arme} {adjectif}"],
    "main[hero]": ["Il/Elle/Iel s'appelle {hero}. {hero} est un·e {job}. Il/Elle/Iel a un·e[arme] {arme}. Ce·tte[arme]  {arme} est {adjectif}. Avec lui/elle se trouve {{description}} et {{description}}. {hero} les aime bien, c'est son crew."]
}"#;
    let mut gen = Generator::new();
    gen.add_json(json).unwrap();
    let r1 = gen.instantiate_from_seed("main", 42).unwrap();
    let r2 = gen.instantiate_from_seed("main", 42).unwrap();
    assert_eq!(r2, r1);
}

#[test]
fn capitalize_1() {
    let s = Generator::capitalize("foo", "bar");
    assert_eq!(s, "bar");

    let s = Generator::capitalize("Foo", "bar");
    assert_eq!(s, "Bar");

    let s = Generator::capitalize("FOO", "bar");
    assert_eq!(s, "BAR");
}

#[test]
fn capitalize_2() {
    let mut gen = Generator::new();
    gen.add_json(
        r#"
{
    "dog": ["a good dog"],
    "foo": ["Zyma. {Dog}"],
    "bar": ["Zyma is {dog}"],
    "baz": ["Zyma is {DOG}"]
}
"#,
    )
    .unwrap();
    let foo = gen.instantiate("foo").unwrap();
    let bar = gen.instantiate("bar").unwrap();
    let baz = gen.instantiate("baz").unwrap();

    assert_eq!(&foo, "Zyma. A good dog");
    assert_eq!(&bar, "Zyma is a good dog");
    assert_eq!(&baz, "Zyma is A GOOD DOG");
}

#[test]
fn msg() {
    let mut gen = Generator::new();
    gen.add_json(
        r#"
{
    "dog": ["a good dog"]
}
"#,
    )
    .unwrap();
    let result = gen.msg("This is {DOG}", &[]).unwrap();
    assert_eq!(&result, "This is A GOOD DOG");

    let result = gen
        .msg("{doggo} is {DOG}, he/she[doggo] is so cute!", &[("doggo", "Zyma[f]")])
        .unwrap();
    assert_eq!(&result, "Zyma is A GOOD DOG, she is so cute!");
}
