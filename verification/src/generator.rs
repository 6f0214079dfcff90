//! What every backend offers, and the template engine that merges a
//! backend's fragments into a skeleton.

use crate::schema::{valid_schema, CodesFile, EntryView, FrameType};
use crate::text::chars_of;
use vstd::prelude::*;
use vstd::string::*;

verus! {

// The placeholders of a skeleton.

pub const FEEDBACKS_DECLARATIONS: &'static str = "##FEEDBACKS_DECLARATIONS##";

pub const INSTRUCTIONS_DECLARATIONS: &'static str = "##INSTRUCTIONS_DECLARATIONS##";

pub const INSTRUCTIONS_IMPLEMENTATION: &'static str = "##INSTRUCTIONS_IMPLEMENTATION##";

pub const FEEDBACKS_IMPLEMENTATION: &'static str = "##FEEDBACKS_IMPLEMENTATION##";

pub const CUSTOM_INCLUDES: &'static str = "##CUSTOM_INCLUDES##";

pub const CUSTOM_FOOTER: &'static str = "##CUSTOM_FOOTER##";

// The label that is written before each fragment. A skeleton holds its
// placeholders in comments, and the label ends the comment line.

pub const FEEDBACKS_DECLARATIONS_LABEL: &'static str = "Feedbacks declarations\n";

pub const INSTRUCTIONS_DECLARATIONS_LABEL: &'static str = "Instructions declaraions\n";

pub const INSTRUCTIONS_IMPLEMENTATION_LABEL: &'static str = "Instructions implementation\n";

pub const FEEDBACKS_IMPLEMENTATION_LABEL: &'static str = "Feedbacks Implementation\n";

pub const CUSTOM_INCLUDES_LABEL: &'static str = "Custom includes\n";

pub const CUSTOM_FOOTER_LABEL: &'static str = "Custom Footer\n";

/// A backend: the fragments of source text that it writes for a schema.
///
/// A backend writes for valid schemas only: every code fits the tag byte, and
/// a string is the last parameter of its variant.
pub trait LanguageModel {
    /// The text of the backend's own includes.
    spec fn includes_text(&self) -> Seq<char>;

    /// The text that closes the backend's output.
    spec fn footer_text(&self) -> Seq<char>;

    /// The type declarations of one category.
    spec fn declarations_text(&self, codes: Map<u32, EntryView>, kind: FrameType) -> Seq<char>;

    /// The encoders, the decoders and the dispatch of one category.
    spec fn implementation_text(&self, codes: Map<u32, EntryView>, kind: FrameType) -> Seq<char>;

    fn custom_includes(&self) -> (r: String)
        ensures
            r@ == self.includes_text(),
    ;

    fn custom_footer(&self) -> (r: String)
        ensures
            r@ == self.footer_text(),
    ;

    fn declare_feedbacks(&self, codes: &CodesFile) -> (r: String)
        requires
            valid_schema(codes@),
        ensures
            r@ == self.declarations_text(codes@, FrameType::Feedback),
    ;

    fn declare_instructions(&self, codes: &CodesFile) -> (r: String)
        requires
            valid_schema(codes@),
        ensures
            r@ == self.declarations_text(codes@, FrameType::Instruction),
    ;

    fn implement_feedbacks(&self, codes: &CodesFile) -> (r: String)
        requires
            valid_schema(codes@),
        ensures
            r@ == self.implementation_text(codes@, FrameType::Feedback),
    ;

    fn implement_instructions(&self, codes: &CodesFile) -> (r: String)
        requires
            valid_schema(codes@),
        ensures
            r@ == self.implementation_text(codes@, FrameType::Instruction),
    ;
}

/// Whether a text begins with a pattern.
pub open spec fn begins_with(text: Seq<char>, pattern: Seq<char>) -> bool {
    pattern.len() <= text.len() && text.subrange(0, pattern.len() as int) == pattern
}

/// The first entry of the table, from a given index on, whose placeholder the
/// text begins with.
pub open spec fn leading_placeholder(
    text: Seq<char>,
    table: Seq<(Seq<char>, Seq<char>)>,
    from: nat,
) -> Option<nat>
    decreases table.len() - from,
{
    if from >= table.len() {
        None
    } else if table[from as int].0.len() > 0 && begins_with(text, table[from as int].0) {
        Some(from)
    } else {
        leading_placeholder(text, table, from + 1)
    }
}

/// A placeholder that is found is one of the table, is not empty, and stands
/// at the head of the text.
pub proof fn lemma_leading_placeholder(
    text: Seq<char>,
    table: Seq<(Seq<char>, Seq<char>)>,
    from: nat,
)
    ensures
        leading_placeholder(text, table, from) matches Some(k) ==> {
            &&& from <= k < table.len()
            &&& 0 < table[k as int].0.len() <= text.len()
            &&& begins_with(text, table[k as int].0)
        },
    decreases table.len() - from,
{
    if from < table.len() {
        lemma_leading_placeholder(text, table, from + 1);
    }
}

/// A skeleton with each placeholder of the table replaced by its fragment.
///
/// The skeleton is read once from left to right. Where a placeholder begins,
/// its fragment is written and reading goes on behind the placeholder; any
/// other character is copied. A fragment is never read again, so a
/// placeholder inside a fragment stays as it is.
pub open spec fn rendered(text: Seq<char>, table: Seq<(Seq<char>, Seq<char>)>) -> Seq<char>
    decreases text.len(),
{
    if text.len() == 0 {
        Seq::empty()
    } else {
        match leading_placeholder(text, table, 0) {
            Some(k) => {
                proof {
                    lemma_leading_placeholder(text, table, 0);
                }
                table[k as int].1 + rendered(text.skip(table[k as int].0.len() as int), table)
            },
            None => seq![text[0]] + rendered(text.skip(1), table),
        }
    }
}

/// What a table of placeholders and fragments holds.
pub open spec fn table_view(table: Seq<(String, String)>) -> Seq<(Seq<char>, Seq<char>)> {
    table.map_values(|entry: (String, String)| (entry.0@, entry.1@))
}

/// The table that a backend fills for a schema: each placeholder with a label
/// and the backend's fragment.
pub open spec fn fragment_table<M: LanguageModel>(model: &M, codes: Map<u32, EntryView>) -> Seq<
    (Seq<char>, Seq<char>),
> {
    seq![
        (
            FEEDBACKS_DECLARATIONS@,
            FEEDBACKS_DECLARATIONS_LABEL@ + model.declarations_text(codes, FrameType::Feedback),
        ),
        (
            INSTRUCTIONS_DECLARATIONS@,
            INSTRUCTIONS_DECLARATIONS_LABEL@ + model.declarations_text(
                codes,
                FrameType::Instruction,
            ),
        ),
        (
            INSTRUCTIONS_IMPLEMENTATION@,
            INSTRUCTIONS_IMPLEMENTATION_LABEL@ + model.implementation_text(
                codes,
                FrameType::Instruction,
            ),
        ),
        (
            FEEDBACKS_IMPLEMENTATION@,
            FEEDBACKS_IMPLEMENTATION_LABEL@ + model.implementation_text(codes, FrameType::Feedback),
        ),
        (CUSTOM_INCLUDES@, CUSTOM_INCLUDES_LABEL@ + model.includes_text()),
        (CUSTOM_FOOTER@, CUSTOM_FOOTER_LABEL@ + model.footer_text()),
    ]
}

/// Whether the pattern stands in the text at a position.
fn stands_at(text: &Vec<char>, at: usize, pattern: &Vec<char>) -> (r: bool)
    requires
        at <= text.len(),
    ensures
        r == begins_with(text@.skip(at as int), pattern@),
{
    if pattern.len() > text.len() - at {
        return false;
    }
    let mut j: usize = 0;
    while j < pattern.len()
        invariant
            at <= text.len(),
            pattern.len() <= text.len() - at,
            j <= pattern.len(),
            text@.skip(at as int).subrange(0, j as int) == pattern@.subrange(0, j as int),
        decreases pattern.len() - j,
    {
        if text[at + j] != pattern[j] {
            assert(text@.skip(at as int).subrange(0, pattern.len() as int)[j as int]
                != pattern@[j as int]);
            return false;
        }
        j += 1;
        assert(text@.skip(at as int).subrange(0, j as int) =~= text@.skip(at as int).subrange(
            0,
            j - 1,
        ).push(text@[at + j - 1]));
        assert(pattern@.subrange(0, j as int) =~= pattern@.subrange(0, j - 1).push(
            pattern@[j - 1],
        ));
    }
    assert(pattern@.subrange(0, j as int) =~= pattern@);
    true
}

/// What a list of patterns holds.
pub open spec fn patterns_view(patterns: Seq<Vec<char>>) -> Seq<Seq<char>> {
    patterns.map_values(|p: Vec<char>| p@)
}

/// The first placeholder that stands in the text at a position.
fn placeholder_at(
    text: &Vec<char>,
    at: usize,
    patterns: &Vec<Vec<char>>,
    Ghost(table): Ghost<Seq<(Seq<char>, Seq<char>)>>,
) -> (r: Option<usize>)
    requires
        at <= text.len(),
        patterns@.len() == table.len(),
        forall|k: int| 0 <= k < table.len() ==> (#[trigger] patterns@[k])@ == table[k].0,
    ensures
        match r {
            Some(k) => {
                &&& leading_placeholder(text@.skip(at as int), table, 0) == Some(k as nat)
                &&& k < patterns.len()
                &&& table[k as int].0.len() > 0
                &&& begins_with(text@.skip(at as int), table[k as int].0)
            },
            None => leading_placeholder(text@.skip(at as int), table, 0) is None,
        },
{
    let mut k: usize = 0;
    while k < patterns.len()
        invariant
            at <= text.len(),
            k <= patterns.len(),
            patterns@.len() == table.len(),
            forall|k: int| 0 <= k < table.len() ==> (#[trigger] patterns@[k])@ == table[k].0,
            leading_placeholder(text@.skip(at as int), table, 0) == leading_placeholder(
                text@.skip(at as int),
                table,
                k as nat,
            ),
        decreases patterns.len() - k,
    {
        if patterns[k].len() > 0 && stands_at(text, at, &patterns[k]) {
            return Some(k);
        }
        k += 1;
    }
    None
}

/// Replaces each placeholder of the table, where it stands in the skeleton,
/// by its fragment. Text that is no placeholder of the table is copied.
pub fn render(skeleton: &str, table: &Vec<(String, String)>) -> (r: String)
    ensures
        r@ == rendered(skeleton@, table_view(table@)),
{
    let text = chars_of(skeleton);
    let ghost view = table_view(table@);
    let mut patterns: Vec<Vec<char>> = Vec::new();
    let mut k: usize = 0;
    while k < table.len()
        invariant
            k <= table.len(),
            patterns@.len() == k,
            view == table_view(table@),
            forall|j: int| 0 <= j < k ==> (#[trigger] patterns@[j])@ == view[j].0,
        decreases table.len() - k,
    {
        patterns.push(chars_of(table[k].0.as_str()));
        k += 1;
    }
    let mut out = String::new();
    let mut start: usize = 0;
    let mut i: usize = 0;
    assert(out@ + text@.subrange(0, 0) + rendered(text@.skip(0), view) =~= rendered(text@, view))
        by {
        assert(text@.skip(0) =~= text@);
    }
    while i < text.len()
        invariant
            start <= i <= text.len(),
            text@ == skeleton@,
            view == table_view(table@),
            patterns@.len() == table@.len(),
            forall|j: int| 0 <= j < view.len() ==> (#[trigger] patterns@[j])@ == view[j].0,
            out@ + text@.subrange(start as int, i as int) + rendered(text@.skip(i as int), view)
                == rendered(text@, view),
        decreases text.len() - i,
    {
        let ghost rest = text@.skip(i as int);
        match placeholder_at(&text, i, &patterns, Ghost(view)) {
            Some(k) => {
                let width = patterns[k].len();
                assert(rest.skip(width as int) =~= text@.skip(i + width));
                let ghost before = out@;
                out.append(skeleton.substring_char(start, i));
                out.append(table[k].1.as_str());
                assert(out@ + text@.subrange(i + width, i + width) + rendered(
                    text@.skip(i + width),
                    view,
                ) =~= before + text@.subrange(start as int, i as int) + rendered(rest, view));
                i += width;
                start = i;
            },
            None => {
                assert(rest.skip(1) =~= text@.skip(i + 1));
                assert(out@ + text@.subrange(start as int, i + 1) + rendered(
                    text@.skip(i + 1),
                    view,
                ) =~= out@ + text@.subrange(start as int, i as int) + rendered(rest, view));
                i += 1;
            },
        }
    }
    assert(rendered(text@.skip(i as int), view) =~= Seq::<char>::empty());
    let ghost before = out@;
    out.append(skeleton.substring_char(start, i));
    assert(out@ =~= before + text@.subrange(start as int, i as int) + rendered(
        text@.skip(i as int),
        view,
    ));
    out
}

/// A text with every occurrence of a pattern replaced: the text is read once
/// from left to right, and reading goes on behind each occurrence. An empty
/// pattern occurs nowhere.
pub open spec fn replaced(text: Seq<char>, pattern: Seq<char>, by: Seq<char>) -> Seq<char> {
    rendered(text, seq![(pattern, by)])
}

/// Replaces every occurrence of a pattern in a text.
pub fn replace_all(text: &str, pattern: &str, by: &str) -> (r: String)
    ensures
        r@ == replaced(text@, pattern@, by@),
{
    let mut table: Vec<(String, String)> = Vec::new();
    table.push((String::from_str(pattern), String::from_str(by)));
    assert(table_view(table@) =~= seq![(pattern@, by@)]);
    render(text, &table)
}

/// A label followed by a fragment.
fn labelled(label: &str, fragment: String) -> (r: String)
    ensures
        r@ == label@ + fragment@,
{
    let mut out = String::from_str(label);
    out.append(fragment.as_str());
    out
}

/// Fills a skeleton with the fragments that a backend writes for a schema.
///
/// Each fragment is written once, before the skeleton is read, and stands
/// behind its label wherever its placeholder occurs. The schema must be valid;
/// `generate` checks that first and refuses any other.
pub fn process_template<M: LanguageModel>(template: &str, model: &M, codes: &CodesFile) -> (r:
    String)
    requires
        valid_schema(codes@),
    ensures
        r@ == rendered(template@, fragment_table(model, codes@)),
{
    let mut table: Vec<(String, String)> = Vec::new();
    table.push(
        (
            String::from_str(FEEDBACKS_DECLARATIONS),
            labelled(FEEDBACKS_DECLARATIONS_LABEL, model.declare_feedbacks(codes)),
        ),
    );
    table.push(
        (
            String::from_str(INSTRUCTIONS_DECLARATIONS),
            labelled(INSTRUCTIONS_DECLARATIONS_LABEL, model.declare_instructions(codes)),
        ),
    );
    table.push(
        (
            String::from_str(INSTRUCTIONS_IMPLEMENTATION),
            labelled(INSTRUCTIONS_IMPLEMENTATION_LABEL, model.implement_instructions(codes)),
        ),
    );
    table.push(
        (
            String::from_str(FEEDBACKS_IMPLEMENTATION),
            labelled(FEEDBACKS_IMPLEMENTATION_LABEL, model.implement_feedbacks(codes)),
        ),
    );
    table.push(
        (String::from_str(CUSTOM_INCLUDES), labelled(CUSTOM_INCLUDES_LABEL, model.custom_includes())),
    );
    table.push(
        (String::from_str(CUSTOM_FOOTER), labelled(CUSTOM_FOOTER_LABEL, model.custom_footer())),
    );
    assert(table_view(table@) =~= fragment_table(model, codes@));
    render(template, &table)
}

} // verus!
