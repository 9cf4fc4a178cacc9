//! A label that displays some text, either fixed or localized.

use vstd::prelude::*;
use vstd::string::*;
use crate::argvalue::{arg_text, ArgValue};
use crate::context::{Data, LayoutCtx};
use crate::geometry::{sat, BoxConstraints, Size, UnitPoint};

verus! {

/// Most characters of a fixed label text, of the key of a localized string
/// and of the name of one of its arguments.
pub const MAX_LABEL_LEN: usize = 20;

/// Whether a text fits the label capacity; callers check this before
/// building label text, where an over-long text is fatal.
pub fn label_text_fits(s: &str) -> (r: bool)
    ensures
        r == (s@.len() <= MAX_LABEL_LEN),
{
    s.unicode_len() <= MAX_LABEL_LEN
}

/// One argument of a localized string: the name it is shown under and the
/// number by which the application data gives its value.
#[derive(Clone, Debug)]
pub struct LocalizedArg {
    pub name: String,
    pub arg: u32,
}

/// A string built from a key and named arguments whose values come from the
/// application data: the key, then ` name=value` for each argument in turn.
#[derive(Clone, Debug)]
pub struct LocalizedString {
    pub key: String,
    pub args: Vec<LocalizedArg>,
    /// The text as last resolved.
    pub resolved: String,
}

/// The text of a localized string whose first `n` arguments have the
/// given names and value texts.
pub open spec fn localized_text(
    key: Seq<char>,
    names: Seq<Seq<char>>,
    values: Seq<Seq<char>>,
    n: nat,
) -> Seq<char>
    decreases n,
{
    if n == 0 {
        key
    } else {
        localized_text(key, names, values, (n - 1) as nat) + seq![' '] + names[n - 1] + seq!['=']
            + values[n - 1]
    }
}

/// The names of the arguments.
pub open spec fn arg_names(args: Seq<LocalizedArg>) -> Seq<Seq<char>> {
    args.map_values(|a: LocalizedArg| a.name@)
}

/// The texts of argument values.
pub open spec fn value_texts(values: Seq<ArgValue>) -> Seq<Seq<char>> {
    values.map_values(|v: ArgValue| arg_text(v))
}

impl LocalizedString {
    /// A string with no arguments; until resolved it shows its key.
    pub fn new(key: &str) -> (r: LocalizedString)
        requires
            key@.len() <= MAX_LABEL_LEN,
        ensures
            r.key@ == key@,
            r.args@.len() == 0,
            r.resolved@ == key@,
    {
        LocalizedString {
            key: String::from_str(key),
            args: Vec::new(),
            resolved: String::from_str(key),
        }
    }

    /// Adds an argument shown under `name`, whose value the application data
    /// gives for the number `arg`.
    pub fn with_arg(self, name: &str, arg: u32) -> (r: LocalizedString)
        requires
            name@.len() <= MAX_LABEL_LEN,
        ensures
            r.key@ == self.key@,
            r.resolved@ == self.resolved@,
            r.args@.len() == self.args@.len() + 1,
            forall|i: int| 0 <= i < self.args@.len() ==> r.args@[i] == self.args@[i],
            r.args@.last().name@ == name@,
            r.args@.last().arg == arg,
    {
        let mut s = self;
        s.args.push(LocalizedArg { name: String::from_str(name), arg });
        s
    }

    /// The text as last resolved.
    pub fn localized_str(&self) -> (r: &str)
        ensures
            r@ == self.resolved@,
    {
        self.resolved.as_str()
    }

    /// Sets the text from the given argument values, one for each argument,
    /// and says whether it changed.
    pub fn resolve_with(&mut self, values: &Vec<ArgValue>) -> (changed: bool)
        requires
            values@.len() == old(self).args@.len(),
        ensures
            final(self).key == old(self).key,
            final(self).args == old(self).args,
            final(self).resolved@ == localized_text(
                old(self).key@,
                arg_names(old(self).args@),
                value_texts(values@),
                old(self).args@.len(),
            ),
            changed == (final(self).resolved@ != old(self).resolved@),
    {
        let mut s = String::from_str(self.key.as_str());
        let n = self.args.len();
        let mut i: usize = 0;
        while i < n
            invariant
                n == self.args@.len(),
                n == values@.len(),
                i <= n,
                s@ == localized_text(
                    self.key@,
                    arg_names(self.args@),
                    value_texts(values@),
                    i as nat,
                ),
            decreases n - i,
        {
            s.append(" ");
            s.append(self.args[i].name.as_str());
            s.append("=");
            let t = values[i].to_string();
            s.append(t.as_str());
            proof {
                reveal_strlit(" ");
                reveal_strlit("=");
                assert(arg_names(self.args@)[i as int] == self.args@[i as int].name@);
                assert(value_texts(values@)[i as int] == arg_text(values@[i as int]));
                assert(s@ =~= localized_text(
                    self.key@,
                    arg_names(self.args@),
                    value_texts(values@),
                    (i + 1) as nat,
                ));
            }
            i = i + 1;
        }
        let changed = s != self.resolved;
        self.resolved = s;
        changed
    }

    /// Sets the text from the current values of its arguments and says
    /// whether it changed.
    pub fn resolve<D: Data>(&mut self, data: &D) -> (changed: bool)
        ensures
            final(self).key == old(self).key,
            final(self).args == old(self).args,
            final(self).resolved@ == resolved_text(*old(self), *data),
            changed == (final(self).resolved@ != old(self).resolved@),
    {
        let mut values: Vec<ArgValue> = Vec::new();
        let n = self.args.len();
        let mut i: usize = 0;
        while i < n
            invariant
                n == self.args@.len(),
                i <= n,
                values@.len() == i,
                forall|k: int| 0 <= k < i ==> #[trigger] values@[k] == data.arg_spec(self.args@[k].arg),
            decreases n - i,
        {
            values.push(data.arg_value(self.args[i].arg));
            i = i + 1;
        }
        proof {
            assert(values@ =~= arg_values(self.args@, *data));
        }
        self.resolve_with(&values)
    }
}

/// The values the data gives the arguments.
pub open spec fn arg_values<D: Data>(args: Seq<LocalizedArg>, data: D) -> Seq<ArgValue> {
    args.map_values(|a: LocalizedArg| data.arg_spec(a.arg))
}

/// The text of a localized string resolved against `data`.
pub open spec fn resolved_text<D: Data>(l: LocalizedString, data: D) -> Seq<char> {
    localized_text(l.key@, arg_names(l.args@), value_texts(arg_values(l.args@, data)), l.args@.len())
}

/// `t1` is `t0` resolved against `data`: fixed text stays as it is; a
/// localized text keeps its key and arguments and shows `resolved_text`.
pub open spec fn text_refreshed<D: Data>(t0: LabelText, t1: LabelText, data: D) -> bool {
    match t0 {
        LabelText::Specific(_) => t1 == t0,
        LabelText::Localized(l0) => t1 matches LabelText::Localized(l1) && l1.key == l0.key && l1.args == l0.args
            && l1.resolved@ == resolved_text(l0, data),
    }
}

/// The text on display is not what resolving against `data` gives.
pub open spec fn text_stale<D: Data>(t: LabelText, data: D) -> bool {
    t matches LabelText::Localized(l) && l.resolved@ != resolved_text(l, data)
}

/// The text of a label.
#[derive(Clone, Debug)]
pub enum LabelText {
    Localized(LocalizedString),
    Specific(String),
}

impl LabelText {
    /// The text on display.
    pub open spec fn view(self) -> Seq<char> {
        match self {
            LabelText::Localized(s) => s.resolved@,
            LabelText::Specific(s) => s@,
        }
    }

    /// Fixed text.
    pub fn from_str(s: &str) -> (r: LabelText)
        requires
            s@.len() <= MAX_LABEL_LEN,
        ensures
            r matches LabelText::Specific(t) && t@ == s@,
            r@ == s@,
    {
        LabelText::Specific(String::from_str(s))
    }

    /// Text that follows the application data.
    pub fn from_localized(s: LocalizedString) -> (r: LabelText)
        ensures
            r == LabelText::Localized(s),
    {
        LabelText::Localized(s)
    }

    /// The text that should be displayed.
    pub fn display_text(&self) -> (r: &str)
        ensures
            r@ == self@,
    {
        match self {
            LabelText::Specific(s) => s.as_str(),
            LabelText::Localized(s) => s.localized_str(),
        }
    }

    /// Updates a localized text from the data; returns whether it changed.
    /// Fixed text never changes.
    pub fn resolve<D: Data>(&mut self, data: &D) -> (changed: bool)
        ensures
            text_refreshed(*old(self), *final(self), *data),
            changed == text_stale(*old(self), *data),
            changed == (final(self)@ != old(self)@),
    {
        match self {
            LabelText::Specific(_) => false,
            LabelText::Localized(s) => s.resolve(data),
        }
    }
}

/// The size a text asks for: one glyph width per character, and a line
/// six fifths of the font size high.
pub open spec fn text_size(text: Seq<char>, lc: LayoutCtx) -> Size {
    Size {
        width: sat(text.len() * lc.glyph_width),
        height: sat(lc.font_size * 6 / 5),
    }
}

/// Measures a text.
pub fn measure_text(text: &str, lc: &LayoutCtx) -> (r: Size)
    ensures
        r == text_size(text@, *lc),
{
    let len = text.unicode_len();
    let n: u64 = if len > u32::MAX as usize { u32::MAX as u64 } else { len as u64 };
    proof {
        assert(n * lc.glyph_width <= u32::MAX * u32::MAX) by (nonlinear_arith)
            requires
                n <= u32::MAX,
                lc.glyph_width <= u32::MAX,
        ;
        assert(len == text@.len());
        if len > u32::MAX as usize {
            if lc.glyph_width >= 1 {
                assert(len * lc.glyph_width >= len) by (nonlinear_arith)
                    requires
                        lc.glyph_width >= 1,
                ;
                assert(n * lc.glyph_width >= n) by (nonlinear_arith)
                    requires
                        lc.glyph_width >= 1,
                ;
            } else {
                assert(len * lc.glyph_width == 0) by (nonlinear_arith)
                    requires
                        lc.glyph_width == 0,
                ;
                assert(n * lc.glyph_width == 0) by (nonlinear_arith)
                    requires
                        lc.glyph_width == 0,
                ;
            }
        }
    }
    let w = n * lc.glyph_width as u64;
    let width: u32 = if w > u32::MAX as u64 { u32::MAX } else { w as u32 };
    let h = lc.font_size as u64 * 6 / 5;
    let height: u32 = if h > u32::MAX as u64 { u32::MAX } else { h as u32 };
    assert(width == sat(text@.len() * lc.glyph_width));
    Size { width, height }
}

/// A label that displays some text.
#[derive(Clone, Debug)]
pub struct Label {
    pub text: LabelText,
    pub align: UnitPoint,
}

impl Label {
    /// A label whose text sits at the middle of its left edge.
    pub fn new(text: LabelText) -> (r: Label)
        ensures
            r.text == text,
            r.align == (UnitPoint { x: 0, y: 500 }),
    {
        Label { text, align: UnitPoint::left() }
    }

    /// A label whose text sits at the given point.
    pub fn aligned(text: LabelText, align: UnitPoint) -> (r: Label)
        requires
            align.wf(),
        ensures
            r.text == text,
            r.align == align,
    {
        Label { text, align }
    }

    /// The size the label takes within the constraints.
    pub fn layout(&self, bc: &BoxConstraints, lc: &LayoutCtx) -> (r: Size)
        ensures
            r == bc.spec_constrain(text_size(self.text@, *lc)),
    {
        bc.constrain(measure_text(self.text.display_text(), lc))
    }
}

} // verus!
