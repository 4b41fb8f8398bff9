use glacier::style::{copy_spans, plain, render, styled, Style};

#[test]
fn styles_are_painted_with_their_codes() {
    colored::control::set_override(true);
    for (style, on) in [
        (Style::Dimmed, "\x1B[2m"),
        (Style::Green, "\x1B[32m"),
        (Style::Red, "\x1B[31m"),
        (Style::RedBold, "\x1B[1;31m"),
        (Style::RedDimmed, "\x1B[2;31m"),
        (Style::Yellow, "\x1B[33m"),
        (Style::YellowBold, "\x1B[1;33m"),
        (Style::Cyan, "\x1B[36m"),
        (Style::CyanBold, "\x1B[1;36m"),
        (Style::BrightBlue, "\x1B[94m"),
        (Style::WhiteBold, "\x1B[1;37m"),
        (Style::BrightWhiteBold, "\x1B[1;97m"),
    ] {
        assert_eq!(render(&vec![styled(style, "x")]), format!("{}x\x1B[0m", on));
    }
}

#[test]
fn a_row_of_spans_is_rendered_in_order() {
    colored::control::set_override(true);
    let row = vec![plain("  "), styled(Style::Green, "✔"), plain(" "), styled(Style::Dimmed, "done")];
    assert_eq!(render(&row), "  \x1B[32m✔\x1B[0m \x1B[2mdone\x1B[0m");
    assert_eq!(render(&copy_spans(&row)), render(&row));
}

#[test]
fn a_reset_inside_a_span_is_followed_by_its_style() {
    colored::control::set_override(true);
    let row = vec![styled(Style::Red, "a\x1B[0mb")];
    assert_eq!(render(&row), "\x1B[31ma\x1B[0m\x1B[31mb\x1B[0m");
}

#[test]
fn without_colors_the_text_is_bare() {
    colored::control::set_override(false);
    let row = vec![styled(Style::RedBold, "a"), plain("b"), styled(Style::CyanBold, "c")];
    assert_eq!(render(&row), "abc");
    assert_eq!(render(&Vec::new()), "");
}
