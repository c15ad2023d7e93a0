use moonshot::macro_input::{macro_input_layout, macro_input_texts, MacroInput, MacroInputError};

fn chars(s: &str) -> Vec<char> {
    s.chars().collect()
}

#[test]
fn parses_path_and_name() {
    let m = MacroInput::parse("spec = \"../../model.ron\", name = Filter4x2").unwrap();
    assert_eq!(m.spec_path, "../../model.ron");
    assert_eq!(m.name, "Filter4x2");
}

#[test]
fn parses_without_spaces_and_with_newlines() {
    let m = MacroInput::parse("spec=\"m.ron\",name=F").unwrap();
    assert_eq!(m.spec_path, "m.ron");
    assert_eq!(m.name, "F");
    let m = MacroInput::parse("\n  spec =\n \"m.ron\" ,\n name = Filter \n").unwrap();
    assert_eq!(m.spec_path, "m.ron");
    assert_eq!(m.name, "Filter");
}

#[test]
fn resolves_escapes_in_the_path() {
    let m = MacroInput::parse("spec = \"a\\\\b\\n\", name = X").unwrap();
    assert_eq!(m.spec_path, "a\\b\n");
}

#[test]
fn keeps_commas_inside_the_path() {
    let m = MacroInput::parse("spec = \"a, name = B\", name = C").unwrap();
    assert_eq!(m.spec_path, "a, name = B");
    assert_eq!(m.name, "C");
}

#[test]
fn refuses_missing_spec_keyword() {
    assert_eq!(
        MacroInput::parse("path = \"a\", name = B").err(),
        Some(MacroInputError::ExpectedSpecKeyword)
    );
    assert_eq!(
        MacroInput::parse("specs = \"a\", name = B").err(),
        Some(MacroInputError::ExpectedSpecKeyword)
    );
}

#[test]
fn refuses_missing_equals() {
    assert_eq!(
        MacroInput::parse("spec \"a\", name = B").err(),
        Some(MacroInputError::ExpectedEquals)
    );
    assert_eq!(
        MacroInput::parse("spec = \"a\", name B").err(),
        Some(MacroInputError::ExpectedEquals)
    );
}

#[test]
fn refuses_missing_comma() {
    assert_eq!(
        MacroInput::parse("spec = \"a\" name = B").err(),
        Some(MacroInputError::ExpectedComma)
    );
}

#[test]
fn refuses_missing_name_keyword() {
    assert_eq!(
        MacroInput::parse("spec = \"a\", title = B").err(),
        Some(MacroInputError::ExpectedNameKeyword)
    );
}

#[test]
fn refuses_a_path_that_is_no_string_literal() {
    assert_eq!(
        MacroInput::parse("spec = model, name = B").err(),
        Some(MacroInputError::InvalidSpecPath)
    );
    assert_eq!(
        MacroInput::parse("spec = \"a\" \"b\", name = B").err(),
        Some(MacroInputError::InvalidSpecPath)
    );
}

#[test]
fn refuses_a_name_that_is_no_identifier() {
    assert_eq!(
        MacroInput::parse("spec = \"a\", name = 42").err(),
        Some(MacroInputError::InvalidName)
    );
    assert_eq!(
        MacroInput::parse("spec = \"a\", name = struct").err(),
        Some(MacroInputError::InvalidName)
    );
    assert_eq!(
        MacroInput::parse("spec = \"a\", name = A B").err(),
        Some(MacroInputError::InvalidName)
    );
}

#[test]
fn layout_of_rendered_input() {
    let s = chars("spec=\"x,y\",name=Q");
    let (e1, c, e2) = macro_input_layout(&s).unwrap();
    assert_eq!((e1, c, e2), (4, 10, 15));
    let lit: String = s[e1 + 1..c].iter().collect();
    let name: String = s[e2 + 1..].iter().collect();
    assert_eq!(lit, "\"x,y\"");
    assert_eq!(name, "Q");
}

#[test]
fn from_parts_reports_the_missing_part() {
    assert_eq!(
        MacroInput::from_parts(None, Some("A".to_string())).err(),
        Some(MacroInputError::InvalidSpecPath)
    );
    assert_eq!(
        MacroInput::from_parts(Some("p".to_string()), None).err(),
        Some(MacroInputError::InvalidName)
    );
    let m = MacroInput::from_parts(Some("p".to_string()), Some("A".to_string())).unwrap();
    assert_eq!((m.spec_path.as_str(), m.name.as_str()), ("p", "A"));
}

#[test]
fn texts_handed_to_syn() {
    assert_eq!(
        macro_input_texts("spec = \"../../model.ron\", name = Filter4x2"),
        Ok((" \"../../model.ron\"", " Filter4x2"))
    );
    assert_eq!(
        macro_input_texts("\t spec\n=\"a,b\" ,\n  name =Q "),
        Ok(("\"a,b\" ", "Q "))
    );
    assert_eq!(
        macro_input_texts("spec = \"a\" name = B"),
        Err(MacroInputError::ExpectedComma)
    );
}

#[test]
fn the_project_input_parses() {
    let m = MacroInput::parse("spec = \"../../model.ron\", name = Filter4x2").unwrap();
    assert_eq!((m.spec_path.as_str(), m.name.as_str()), ("../../model.ron", "Filter4x2"));
}

#[test]
fn malformed_inputs_are_refused() {
    assert_eq!(
        MacroInput::parse("name = Filter4x2, spec = \"m.ron\"").err(),
        Some(MacroInputError::ExpectedSpecKeyword)
    );
    assert_eq!(
        MacroInput::parse("spec = \"m.ron\" name = F").err(),
        Some(MacroInputError::ExpectedComma)
    );
    assert_eq!(
        MacroInput::parse("spec = m_ron, name = F").err(),
        Some(MacroInputError::InvalidSpecPath)
    );
    assert_eq!(
        MacroInput::parse("spec = \"m.ron\", name = \"F\"").err(),
        Some(MacroInputError::InvalidName)
    );
    assert_eq!(
        MacroInput::parse("spec = \"m.ron\", name = ").err(),
        Some(MacroInputError::InvalidName)
    );
}
