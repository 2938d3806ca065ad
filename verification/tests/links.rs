use linzklar::lenticular::Error;
use linzklar::lenticular::Lenticular;

fn s(text: &str) -> String {
    text.to_string()
}

fn anchor(c: char) -> String {
    format!("<a href=\"{}%20-%20燐字海.html\">{}</a>", c, c)
}

fn kinds(errors: &[Error]) -> Vec<(u8, String)> {
    let mut out = Vec::new();
    for e in errors {
        match e {
            Error::MismatchedRightLenticular(t) => out.push((1, t.clone())),
            Error::MismatchedLeftLenticular(t) => out.push((2, t.clone())),
            Error::LenticularInsideLenticular(t) => out.push((3, t.clone())),
        }
    }
    out
}

#[test]
fn plain_text_is_unchanged() {
    assert_eq!(s("abc <b>x</b> 燐").lenticular_to_link().unwrap(), "abc <b>x</b> 燐");
}

#[test]
fn empty_text_is_accepted() {
    assert_eq!(s("").lenticular_to_link().unwrap(), "");
}

#[test]
fn empty_brackets_vanish() {
    assert_eq!(s("x【】y").lenticular_to_link().unwrap(), "xy");
}

#[test]
fn bracketed_characters_become_anchors() {
    let got = s("a【bc】d").lenticular_to_link().unwrap();
    assert_eq!(got, format!("a{}{}d", anchor('b'), anchor('c')));
    assert_eq!(
        got,
        "a<a href=\"b%20-%20燐字海.html\">b</a><a href=\"c%20-%20燐字海.html\">c</a>d"
    );
}

#[test]
fn several_bracket_runs_keep_their_order() {
    let got = s("【火】と【水】。").lenticular_to_link().unwrap();
    assert_eq!(got, format!("{}と{}。", anchor('火'), anchor('水')));
}

#[test]
fn stray_close_is_reported_with_the_whole_text() {
    let err = s("a】b").lenticular_to_link().unwrap_err();
    assert_eq!(kinds(&err), vec![(1, s("a】b"))]);
}

#[test]
fn stray_close_after_a_closed_run() {
    let err = s("【a】】").lenticular_to_link().unwrap_err();
    assert_eq!(kinds(&err), vec![(1, s("【a】】"))]);
}

#[test]
fn unclosed_open_is_reported_with_the_whole_text() {
    let err = s("x【ab").lenticular_to_link().unwrap_err();
    assert_eq!(kinds(&err), vec![(2, s("x【ab"))]);
}

#[test]
fn nested_open_is_reported_with_the_whole_text() {
    let err = s("【a【b】】").lenticular_to_link().unwrap_err();
    assert_eq!(kinds(&err), vec![(3, s("【a【b】】"))]);
}

#[test]
fn the_first_fatal_character_decides() {
    let err = s("】【【").lenticular_to_link().unwrap_err();
    assert_eq!(kinds(&err), vec![(1, s("】【【"))]);
    let err = s("【【】】】").lenticular_to_link().unwrap_err();
    assert_eq!(kinds(&err), vec![(3, s("【【】】】"))]);
    let err = s("【【").lenticular_to_link().unwrap_err();
    assert_eq!(kinds(&err), vec![(3, s("【【"))]);
}

#[test]
fn one_text_reports_one_error() {
    let err = s("】】】").lenticular_to_link().unwrap_err();
    assert_eq!(err.len(), 1);
}

#[test]
fn sequence_of_accepted_texts() {
    let v = vec![s("a"), s("【b】"), s("")];
    let got = v.lenticular_to_link().unwrap();
    assert_eq!(got, vec![s("a"), anchor('b'), s("")]);
}

#[test]
fn empty_sequence_is_accepted() {
    let v: Vec<String> = Vec::new();
    assert_eq!(v.lenticular_to_link().unwrap(), Vec::<String>::new());
}

#[test]
fn sequence_reports_every_failing_text_in_order() {
    let v = vec![s("ok"), s("a】"), s("【x】"), s("【"), s("【【"), s("fine")];
    let err = v.lenticular_to_link().unwrap_err();
    assert_eq!(kinds(&err), vec![(1, s("a】")), (2, s("【")), (3, s("【【"))]);
}

#[test]
fn pair_of_accepted_texts() {
    let got = (s("【a】"), s("b")).lenticular_to_link().unwrap();
    assert_eq!(got, (anchor('a'), s("b")));
}

#[test]
fn pair_reports_the_failing_side() {
    let err = (s("a"), s("b】")).lenticular_to_link().unwrap_err();
    assert_eq!(kinds(&err), vec![(1, s("b】"))]);
    let err = (s("【a"), s("b")).lenticular_to_link().unwrap_err();
    assert_eq!(kinds(&err), vec![(2, s("【a"))]);
}

#[test]
fn pair_reports_left_errors_before_right_errors() {
    let err = (s("【a"), s("b】")).lenticular_to_link().unwrap_err();
    assert_eq!(kinds(&err), vec![(2, s("【a")), (1, s("b】"))]);
}

#[test]
fn nested_containers_report_depth_first() {
    let v = vec![
        (s("t】"), vec![s("【【"), s("fine")]),
        (s("good"), vec![s("【")]),
        (s("【x】"), vec![]),
    ];
    let err = v.lenticular_to_link().unwrap_err();
    assert_eq!(kinds(&err), vec![(1, s("t】")), (3, s("【【")), (2, s("【"))]);
}

#[test]
fn nested_containers_are_rewritten_in_place() {
    let v = vec![(s("【x】"), vec![s("y"), s("【z】")])];
    let got = v.lenticular_to_link().unwrap();
    assert_eq!(got, vec![(anchor('x'), vec![s("y"), anchor('z')])]);
}

#[test]
fn errors_can_be_cloned_and_printed() {
    let err = s("】").lenticular_to_link().unwrap_err();
    let copy = err[0].clone();
    assert_eq!(format!("{:?}", copy), "MismatchedRightLenticular(\"】\")");
}
