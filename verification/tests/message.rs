use untis_telegram_bot::markdown::{bold, code_block, code_block_with_lang, code_inline, escape, italic, link, strike};
use untis_telegram_bot::message::LabeledMessage;

const DEBUG_HEADING: &str = "*<\\-\\-\\-DEBUG\\-\\-\\-\\>*";

#[test]
fn escape_marks_every_special_character() {
    assert_eq!(escape("a_b*c[d]e(f)g~h`i>j#k+l-m=n|o{p}q.r!s"), "a\\_b\\*c\\[d\\]e\\(f\\)g\\~h\\`i\\>j\\#k\\+l\\-m\\=n\\|o\\{p\\}q\\.r\\!s");
    assert_eq!(escape("plain text"), "plain text");
    assert_eq!(escape("back\\slash"), "back\\slash");
}

#[test]
fn markdown_wrappers_match_their_statements() {
    assert_eq!(bold("x y"), "*x y*");
    assert_eq!(italic("x"), "_x_");
    assert_eq!(italic("__x__"), "___x_\\r__");
    assert_eq!(strike("x"), "~x~");
    assert_eq!(link("https://e.com/(a)", "t"), "[t](https://e.com/(a\\))");
    assert_eq!(code_block("a`b\\c"), "```\na\\`b\\\\c\n```");
    assert_eq!(code_block_with_lang("x", "c++"), "```c\\+\\+\nx\n```");
    assert_eq!(code_inline("a`b"), "`a\\`b`");
}

#[test]
fn pushes_escape_and_wrap_their_text() {
    let mut m = LabeledMessage::new();
    m.push("1.5").nl().push_bold("Hi!").push_italic("it").push_code_inline("x`y");
    m.push_code("fn main", None).push_code("print", Some("py")).push_link("docs (v2)", "https://e.com");
    assert_eq!(
        m.to_string(),
        "1\\.5\n*Hi\\!*_it_`x\\`y````\nfn main\n``````py\nprint\n```[docs \\(v2\\)](https://e.com)"
    );
}

#[test]
fn push_raw_keeps_text_as_is() {
    let mut m = LabeledMessage::default();
    m.push_raw("*already markdown*".to_string());
    assert_eq!(m.to_string(), "*already markdown*");
}

#[test]
fn debug_pieces_show_only_in_development() {
    let mut part = LabeledMessage::new();
    part.push("detail");
    let mut m = LabeledMessage::new();
    m.push("visible");
    m.debug_ln(part);
    let expected_dev = format!("visible\n{DEBUG_HEADING}```\ndetail\n```");
    assert_eq!(m.to_string(), expected_dev);
    assert_eq!(m.render(false), expected_dev);
    assert_eq!(m.render(true), "visible\n");
    assert_eq!(m.filter_normal().to_string(), "visible\n");
}

#[test]
fn only_debug_message_shows_nothing_but_a_break_in_normal_view() {
    let mut part = LabeledMessage::new();
    part.push("Debug: orphan diff entry (sanity check)");
    let mut m = LabeledMessage::new();
    m.debug_ln(part);
    assert_eq!(m.filter_normal().to_string(), "\n");
    assert_eq!(m.render(true), "\n");
}

#[test]
fn filter_normal_twice_is_filter_normal_once() {
    let mut part = LabeledMessage::new();
    part.push("x").nl();
    let mut m = LabeledMessage::new();
    m.push("a").nl();
    m.debug_ln(part);
    m.push("b");
    let once = m.filter_normal();
    let twice = once.filter_normal();
    assert_eq!(once.to_string(), twice.to_string());
    assert_eq!(once.to_string(), "a\n\nb");
}

#[test]
fn rendering_an_extended_message_joins_the_renderings() {
    let mut a = LabeledMessage::new();
    a.push("one").nl();
    let mut b = LabeledMessage::new();
    b.push("two");
    let mut debug = LabeledMessage::new();
    debug.push("dbg");
    b.debug_ln(debug);
    let joined_dev = format!("{}{}", a.to_string(), b.to_string());
    let joined_prod = format!("{}{}", a.render(true), b.render(true));
    let mut c = a.clone();
    c.extend(b);
    assert_eq!(c.to_string(), joined_dev);
    assert_eq!(c.render(true), joined_prod);
}

#[test]
fn debug_ln_relabels_debug_pieces_too() {
    let mut inner = LabeledMessage::new();
    inner.push("deep");
    let mut part = LabeledMessage::new();
    part.push("outer");
    part.debug_ln(inner);
    let mut m = LabeledMessage::new();
    m.debug_ln(part);
    assert_eq!(m.render(true), "\n");
    assert_eq!(
        m.to_string(),
        format!("\n{DEBUG_HEADING}```\nouter\n```{DEBUG_HEADING}```\n\n\n```{DEBUG_HEADING}```\ndeep\n```")
    );
}

#[test]
fn spoiler_and_strikethrough_wrap_joined_text() {
    let mut part = LabeledMessage::new();
    part.push("a").push_code_inline("b");
    let mut m = LabeledMessage::new();
    m.enter_spoiler(part.clone());
    m.enter_strikethrough(part);
    assert_eq!(m.to_string(), "||a`b`||~a`b`~");
}
