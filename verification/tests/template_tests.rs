use edge_rules::template::{fill_template, template_keys};

#[test]
fn placeholders_are_found_in_order() {
    assert_eq!(
        template_keys("Hello ${name}, you are ${age}!"),
        vec![b"name".to_vec(), b"age".to_vec()]
    );
    assert_eq!(template_keys("no placeholders"), Vec::<Vec<u8>>::new());
    assert_eq!(template_keys("${}"), vec![Vec::<u8>::new()]);
    assert_eq!(template_keys("open ${never closed"), Vec::<Vec<u8>>::new());
    assert_eq!(template_keys("$ {x} $${y}"), vec![b"y".to_vec()]);
}

#[test]
fn placeholders_are_filled() {
    let values = vec!["World".to_string(), "42".to_string()];
    assert_eq!(fill_template("Hello ${name}, you are ${age}!", &values), "Hello World, you are 42!");
    assert_eq!(fill_template("${a}${b}${c}", &values), "World42");
    assert_eq!(fill_template("open ${never closed", &values), "open ${never closed");
    assert_eq!(fill_template("", &values), "");
    assert_eq!(fill_template("$${y}", &values), "$World");
}

#[test]
fn bytes_outside_placeholders_are_taken_one_by_one() {
    // each byte of a character written with several bytes becomes a character of its own
    assert_eq!(fill_template("é${x}", &vec!["!".to_string()]), "\u{c3}\u{a9}!");
}
