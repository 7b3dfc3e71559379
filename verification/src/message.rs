//! A Telegram message assembled from labelled pieces: normal text that every
//! reader sees, and debug text that only development builds show.
use vstd::prelude::*;
use vstd::string::*;
use crate::markdown::{
    bold, code_block, code_block_with_lang, code_inline, escape, italic, link, strike, md_bold,
    md_code_block, md_code_block_with_lang, md_code_inline, md_escape, md_italic, md_link,
    md_strike,
};

verus! {

/// One piece of a message, as text ready for MarkdownV2.
#[derive(Debug)]
pub enum LabeledString {
    Normal(String),
    Debug(String),
}

/// The model of a message piece.
pub enum LabeledText {
    Normal(Seq<char>),
    Debug(Seq<char>),
}

impl LabeledText {
    pub open spec fn text(self) -> Seq<char> {
        match self {
            LabeledText::Normal(t) => t,
            LabeledText::Debug(t) => t,
        }
    }
}

impl View for LabeledString {
    type V = LabeledText;

    open spec fn view(&self) -> LabeledText {
        match self {
            LabeledString::Normal(t) => LabeledText::Normal(t@),
            LabeledString::Debug(t) => LabeledText::Debug(t@),
        }
    }
}

/// The heading that introduces a debug piece in a rendered message.
pub open spec fn debug_heading() -> Seq<char> {
    md_bold(md_escape("<---DEBUG--->"@))
}

/// What one piece looks like once rendered: a debug piece is shown as a
/// bold heading followed by a code block that holds its text.
pub open spec fn render_piece(t: LabeledText) -> Seq<char> {
    match t {
        LabeledText::Normal(s) => s,
        LabeledText::Debug(s) => debug_heading() + "```\n"@ + s + "\n```"@,
    }
}

/// The rendering of a sequence of pieces: their renderings, one after another.
pub open spec fn render_all(s: Seq<LabeledText>) -> Seq<char>
    decreases s.len(),
{
    if s.len() == 0 {
        Seq::empty()
    } else {
        render_all(s.drop_last()) + render_piece(s.last())
    }
}

/// The normal pieces of a sequence, in order.
pub open spec fn normal_part(s: Seq<LabeledText>) -> Seq<LabeledText>
    decreases s.len(),
{
    if s.len() == 0 {
        Seq::empty()
    } else if s.last() is Normal {
        normal_part(s.drop_last()).push(s.last())
    } else {
        normal_part(s.drop_last())
    }
}

/// The texts of all pieces, one after another, without any label.
pub open spec fn raw_text(s: Seq<LabeledText>) -> Seq<char>
    decreases s.len(),
{
    if s.len() == 0 {
        Seq::empty()
    } else {
        raw_text(s.drop_last()) + s.last().text()
    }
}

/// Every piece relabelled as debug, texts unchanged.
pub open spec fn as_debug(s: Seq<LabeledText>) -> Seq<LabeledText> {
    s.map_values(|t: LabeledText| LabeledText::Debug(t.text()))
}

/// The rendering of a message in a production build (`prod`), which leaves out
/// the debug pieces, or in a development build, which shows them.
pub open spec fn render_message(s: Seq<LabeledText>, prod: bool) -> Seq<char> {
    if prod {
        render_all(normal_part(s))
    } else {
        render_all(s)
    }
}

impl LabeledString {
    /// The rendering of this piece.
    pub fn render(&self) -> (r: String)
        ensures
            r@ == render_piece(self@),
    {
        match self {
            LabeledString::Normal(text) => text.clone(),
            LabeledString::Debug(text) => {
                let heading = bold(escape("<---DEBUG--->").as_str());
                let mut r = heading;
                r.append("```\n");
                r.append(text.as_str());
                r.append("\n```");
                r
            },
        }
    }

    fn clone_piece(&self) -> (r: Self)
        ensures
            r@ == self@,
    {
        match self {
            LabeledString::Normal(text) => LabeledString::Normal(text.clone()),
            LabeledString::Debug(text) => LabeledString::Debug(text.clone()),
        }
    }

    fn into_debug(self) -> (r: Self)
        ensures
            r@ == LabeledText::Debug(self@.text()),
    {
        match self {
            LabeledString::Normal(text) => LabeledString::Debug(text),
            LabeledString::Debug(text) => LabeledString::Debug(text),
        }
    }

    fn is_normal(&self) -> (r: bool)
        ensures
            r == (self@ is Normal),
    {
        match self {
            LabeledString::Normal(_) => true,
            LabeledString::Debug(_) => false,
        }
    }

    fn text_str(&self) -> (r: &str)
        ensures
            r@ == self@.text(),
    {
        match self {
            LabeledString::Normal(text) => text.as_str(),
            LabeledString::Debug(text) => text.as_str(),
        }
    }
}

/// A message: a sequence of labelled pieces.
#[derive(Debug)]
pub struct LabeledMessage(Vec<LabeledString>);

impl View for LabeledMessage {
    type V = Seq<LabeledText>;

    closed spec fn view(&self) -> Seq<LabeledText> {
        self.0@.map_values(|p: LabeledString| p@)
    }
}

impl Clone for LabeledMessage {
    fn clone(&self) -> (r: Self)
        ensures
            r@ == self@,
    {
        let mut parts: Vec<LabeledString> = Vec::new();
        let n = self.0.len();
        for i in 0..n
            invariant
                n == self.0.len(),
                parts@.len() == i,
                forall|j: int| 0 <= j < i ==> #[trigger] parts@[j]@ == self.0@[j]@,
        {
            parts.push(self.0[i].clone_piece());
        }
        let r = LabeledMessage(parts);
        proof {
            assert(r@ =~= self@);
        }
        r
    }
}

impl Default for LabeledMessage {
    fn default() -> (r: Self)
        ensures
            r@ == Seq::<LabeledText>::empty(),
    {
        LabeledMessage::new()
    }
}

impl LabeledMessage {
    pub fn new() -> (r: Self)
        ensures
            r@ == Seq::<LabeledText>::empty(),
    {
        let r = LabeledMessage(Vec::new());
        proof {
            assert(r@ =~= Seq::<LabeledText>::empty());
        }
        r
    }

    /// Appends text that is already MarkdownV2, as a normal piece.
    pub fn push_raw(&mut self, text: String) -> (r: &mut Self)
        ensures
            r@ == old(self)@.push(LabeledText::Normal(text@)),
            *final(self) == *final(r),
    {
        let ghost text_view = text@;
        self.0.push(LabeledString::Normal(text));
        proof {
            assert(self@ =~= old(self)@.push(LabeledText::Normal(text_view)));
        }
        self
    }

    /// Appends a line break.
    pub fn nl(&mut self) -> (r: &mut Self)
        ensures
            r@ == old(self)@.push(LabeledText::Normal("\n"@)),
            *final(self) == *final(r),
    {
        self.push_raw(String::from_str("\n"))
    }

    /// Appends plain text, escaped for MarkdownV2.
    pub fn push(&mut self, text: &str) -> (r: &mut Self)
        ensures
            r@ == old(self)@.push(LabeledText::Normal(md_escape(text@))),
            *final(self) == *final(r),
    {
        self.push_raw(escape(text))
    }

    /// Appends plain text in bold.
    pub fn push_bold(&mut self, text: &str) -> (r: &mut Self)
        ensures
            r@ == old(self)@.push(LabeledText::Normal(md_bold(md_escape(text@)))),
            *final(self) == *final(r),
    {
        self.push_raw(bold(escape(text).as_str()))
    }

    /// Appends plain text in italics.
    pub fn push_italic(&mut self, text: &str) -> (r: &mut Self)
        ensures
            r@ == old(self)@.push(LabeledText::Normal(md_italic(md_escape(text@)))),
            *final(self) == *final(r),
    {
        self.push_raw(italic(escape(text).as_str()))
    }

    /// Appends a code block, with a language tag when one is given.
    pub fn push_code(&mut self, text: &str, lang: Option<&str>) -> (r: &mut Self)
        ensures
            r@ == old(self)@.push(
                LabeledText::Normal(
                    match lang {
                        Some(l) => md_code_block_with_lang(text@, l@),
                        None => md_code_block(text@),
                    },
                ),
            ),
            *final(self) == *final(r),
    {
        let code = match lang {
            Some(l) => code_block_with_lang(text, l),
            None => code_block(text),
        };
        self.push_raw(code)
    }

    /// Appends an inline code span.
    pub fn push_code_inline(&mut self, text: &str) -> (r: &mut Self)
        ensures
            r@ == old(self)@.push(LabeledText::Normal(md_code_inline(text@))),
            *final(self) == *final(r),
    {
        self.push_raw(code_inline(text))
    }

    /// Appends a link whose visible text is `text`, escaped.
    pub fn push_link(&mut self, text: &str, url: &str) -> (r: &mut Self)
        ensures
            r@ == old(self)@.push(LabeledText::Normal(md_link(url@, md_escape(text@)))),
            *final(self) == *final(r),
    {
        self.push_raw(link(url, escape(text).as_str()))
    }

    /// The texts of all pieces, one after another.
    fn joined_text(&self) -> (r: String)
        ensures
            r@ == raw_text(self@),
    {
        let mut r = String::new();
        let n = self.0.len();
        for i in 0..n
            invariant
                n == self.0.len(),
                r@ == raw_text(self@.take(i as int)),
        {
            proof {
                assert(self@.take(i + 1).drop_last() =~= self@.take(i as int));
            }
            r.append(self.0[i].text_str());
        }
        proof {
            assert(self@.take(n as int) =~= self@);
        }
        r
    }

    /// Appends the texts of `part`, joined and struck through, as one normal piece.
    pub fn enter_strikethrough(&mut self, part: LabeledMessage) -> (r: &mut Self)
        ensures
            r@ == old(self)@.push(LabeledText::Normal(md_strike(raw_text(part@)))),
            *final(self) == *final(r),
    {
        let inner = part.joined_text();
        self.push_raw(strike(inner.as_str()))
    }

    /// Appends the texts of `part`, joined and hidden as a spoiler, as one normal piece.
    pub fn enter_spoiler(&mut self, part: LabeledMessage) -> (r: &mut Self)
        ensures
            r@ == old(self)@.push(LabeledText::Normal("||"@ + raw_text(part@) + "||"@)),
            *final(self) == *final(r),
    {
        let inner = part.joined_text();
        let mut text = String::from_str("||");
        text.append(inner.as_str());
        text.append("||");
        self.push_raw(text)
    }

    /// Appends all pieces of `other`, in order.
    pub fn extend(&mut self, other: LabeledMessage) -> (r: &mut Self)
        ensures
            r@ == old(self)@ + other@,
            *final(self) == *final(r),
    {
        let mut other = other;
        let ghost before = self@;
        let ghost added = other@;
        self.0.append(&mut other.0);
        proof {
            assert(self@ =~= before + added);
        }
        self
    }

    /// Appends a line break, then the pieces of `part`, every one of them
    /// relabelled as debug.
    pub fn debug_ln(&mut self, part: LabeledMessage)
        ensures
            final(self)@ == old(self)@.push(LabeledText::Normal("\n"@)) + as_debug(part@),
    {
        let mut ordered: Vec<LabeledString> = Vec::new();
        let n = part.0.len();
        for i in 0..n
            invariant
                n == part.0.len(),
                ordered@.len() == i,
                forall|j: int|
                    0 <= j < i ==> #[trigger] ordered@[j]@ == LabeledText::Debug(part@[j].text()),
        {
            ordered.push(part.0[i].clone_piece().into_debug());
        }
        let ghost part_view = part@;
        self.nl();
        let ghost before = self@;
        self.0.append(&mut ordered);
        proof {
            assert(self@ =~= before + as_debug(part_view));
        }
    }

    /// The normal pieces of this message, in order.
    pub fn filter_normal(&self) -> (r: Self)
        ensures
            r@ == normal_part(self@),
    {
        let mut parts: Vec<LabeledString> = Vec::new();
        let n = self.0.len();
        for i in 0..n
            invariant
                n == self.0.len(),
                parts@.map_values(|p: LabeledString| p@) == normal_part(self@.take(i as int)),
        {
            proof {
                assert(self@.take(i + 1).drop_last() =~= self@.take(i as int));
            }
            if self.0[i].is_normal() {
                let ghost before = parts@.map_values(|p: LabeledString| p@);
                let piece = self.0[i].clone_piece();
                parts.push(piece);
                proof {
                    assert(parts@.map_values(|p: LabeledString| p@) =~= before.push(self@[i as int]));
                }
            }
        }
        proof {
            assert(self@.take(n as int) =~= self@);
        }
        LabeledMessage(parts)
    }

    /// The message as MarkdownV2 text: with the debug pieces in a development
    /// build, without them in a production build (`prod`).
    pub fn render(&self, prod: bool) -> (r: String)
        ensures
            r@ == render_message(self@, prod),
    {
        let mut r = String::new();
        let n = self.0.len();
        for i in 0..n
            invariant
                n == self.0.len(),
                r@ == render_message(self@.take(i as int), prod),
        {
            proof {
                assert(self@.take(i + 1).drop_last() =~= self@.take(i as int));
            }
            let ghost t0 = self@.take(i as int);
            let ghost x = self@[i as int];
            if !prod || self.0[i].is_normal() {
                let piece = self.0[i].render();
                r.append(piece.as_str());
            }
            proof {
                let t1 = self@.take(i + 1);
                assert(t1.last() == x);
                if prod {
                    if x is Normal {
                        assert(normal_part(t1) == normal_part(t0).push(x));
                        assert(normal_part(t0).push(x).drop_last() =~= normal_part(t0));
                    } else {
                        assert(normal_part(t1) == normal_part(t0));
                    }
                }
            }
        }
        proof {
            assert(self@.take(n as int) =~= self@);
        }
        r
    }

    /// The message as a development build shows it, debug pieces included.
    pub fn to_string(&self) -> (r: String)
        ensures
            r@ == render_all(self@),
    {
        self.render(false)
    }
}

proof fn lemma_render_all_add(a: Seq<LabeledText>, b: Seq<LabeledText>)
    ensures
        render_all(a + b) == render_all(a) + render_all(b),
    decreases b.len(),
{
    if b.len() == 0 {
        assert(a + b =~= a);
    } else {
        lemma_render_all_add(a, b.drop_last());
        assert((a + b).drop_last() =~= a + b.drop_last());
        assert((a + b).last() == b.last());
    }
}

proof fn lemma_normal_part_add(a: Seq<LabeledText>, b: Seq<LabeledText>)
    ensures
        normal_part(a + b) == normal_part(a) + normal_part(b),
    decreases b.len(),
{
    if b.len() == 0 {
        assert(a + b =~= a);
        assert(normal_part(a) + normal_part(b) =~= normal_part(a));
    } else {
        lemma_normal_part_add(a, b.drop_last());
        assert((a + b).drop_last() =~= a + b.drop_last());
        assert((a + b).last() == b.last());
        if b.last() is Normal {
            assert(normal_part(a) + normal_part(b.drop_last()).push(b.last()) =~= (normal_part(a)
                + normal_part(b.drop_last())).push(b.last()));
        }
    }
}

proof fn lemma_normal_part_all_normal(s: Seq<LabeledText>)
    ensures
        forall|i: int| 0 <= i < normal_part(s).len() ==> #[trigger] normal_part(s)[i] is Normal,
    decreases s.len(),
{
    if s.len() > 0 {
        lemma_normal_part_all_normal(s.drop_last());
    }
}

/// A sequence of normal pieces is its own normal view.
pub proof fn normal_pieces_are_their_own_normal_view(s: Seq<LabeledText>)
    requires
        forall|i: int| 0 <= i < s.len() ==> #[trigger] s[i] is Normal,
    ensures
        normal_part(s) == s,
    decreases s.len(),
{
    if s.len() > 0 {
        normal_pieces_are_their_own_normal_view(s.drop_last());
        assert(s.drop_last().push(s.last()) =~= s);
    }
}

proof fn lemma_normal_part_of_debug(s: Seq<LabeledText>)
    ensures
        normal_part(as_debug(s)) == Seq::<LabeledText>::empty(),
    decreases s.len(),
{
    if s.len() > 0 {
        lemma_normal_part_of_debug(s.drop_last());
        assert(as_debug(s).drop_last() =~= as_debug(s.drop_last()));
    } else {
        assert(as_debug(s) =~= Seq::<LabeledText>::empty());
    }
}

/// Taking the normal view of a normal view changes nothing.
pub proof fn filter_normal_is_idempotent(s: Seq<LabeledText>)
    ensures
        normal_part(normal_part(s)) == normal_part(s),
{
    lemma_normal_part_all_normal(s);
    normal_pieces_are_their_own_normal_view(normal_part(s));
}

/// The normal view of two messages joined is the two normal views joined.
pub proof fn filter_normal_distributes_over_extend(a: Seq<LabeledText>, b: Seq<LabeledText>)
    ensures
        normal_part(a + b) == normal_part(a) + normal_part(b),
{
    lemma_normal_part_add(a, b);
}

/// What `debug_ln` adds shows in the normal view as a line break and nothing more.
pub proof fn debug_pieces_stay_out_of_normal_view(
    before: Seq<LabeledText>,
    part: Seq<LabeledText>,
)
    ensures
        normal_part(before.push(LabeledText::Normal("\n"@)) + as_debug(part)) == normal_part(
            before,
        ).push(LabeledText::Normal("\n"@)),
{
    let with_break = before.push(LabeledText::Normal("\n"@));
    lemma_normal_part_add(with_break, as_debug(part));
    lemma_normal_part_of_debug(part);
    assert(with_break.drop_last() =~= before);
    assert(normal_part(with_break) + Seq::<LabeledText>::empty() =~= normal_part(with_break));
}

/// Rendering two messages joined gives the two renderings joined, in either build.
pub proof fn render_distributes_over_extend(a: Seq<LabeledText>, b: Seq<LabeledText>, prod: bool)
    ensures
        render_message(a + b, prod) == render_message(a, prod) + render_message(b, prod),
{
    if prod {
        lemma_normal_part_add(a, b);
        lemma_render_all_add(normal_part(a), normal_part(b));
    } else {
        lemma_render_all_add(a, b);
    }
}

/// A production build shows exactly what the normal view shows, in either build.
pub proof fn production_render_is_normal_view(s: Seq<LabeledText>)
    ensures
        render_message(s, true) == render_message(normal_part(s), false),
        render_message(s, true) == render_message(normal_part(s), true),
{
    filter_normal_is_idempotent(s);
}

} // verus!
