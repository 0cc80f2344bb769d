//! The sections of a Markdown document: its text without images, each part
//! under the path of its headings.
use pulldown_cmark::Event::{self, End, Start};
use pulldown_cmark::{Options, Parser, Tag, TagEnd};

use vstd::prelude::*;

use crate::knowledge::chunking::{paragraphs, split_paragraphs};
use crate::text::{
    chars_of, is_white, join, join_texts, non_empty, non_empty_texts_are_chosen, normalize,
    normalized, views, white,
};

verus! {

/// A step in the reading of a document.
#[derive(Debug, PartialEq, Eq)]
pub enum MarkdownPiece {
    /// An image begins.
    ImageStart,
    /// An image ends.
    ImageEnd,
    /// A heading of the given level, from one, begins.
    HeadingStart(usize),
    /// A heading ends.
    HeadingEnd,
    /// A run of text.
    Text(String),
    /// A run of code.
    Code(String),
    /// The line ends.
    SoftBreak,
    /// The line ends on purpose.
    HardBreak,
    /// A paragraph ends.
    ParagraphEnd,
    /// An entry of a list ends.
    ItemEnd,
    /// A block of code ends.
    CodeBlockEnd,
    /// A line is drawn.
    Rule,
    /// Anything else.
    Other,
}

/// The value of a [`MarkdownPiece`].
#[verifier::ext_equal]
pub enum MarkdownPieceModel {
    ImageStart,
    ImageEnd,
    HeadingStart(usize),
    HeadingEnd,
    Text(Seq<char>),
    Code(Seq<char>),
    SoftBreak,
    HardBreak,
    ParagraphEnd,
    ItemEnd,
    CodeBlockEnd,
    Rule,
    Other,
}

impl View for MarkdownPiece {
    type V = MarkdownPieceModel;

    open spec fn view(&self) -> MarkdownPieceModel {
        match *self {
            MarkdownPiece::ImageStart => MarkdownPieceModel::ImageStart,
            MarkdownPiece::ImageEnd => MarkdownPieceModel::ImageEnd,
            MarkdownPiece::HeadingStart(inner) => MarkdownPieceModel::HeadingStart(inner),
            MarkdownPiece::HeadingEnd => MarkdownPieceModel::HeadingEnd,
            MarkdownPiece::Text(inner) => MarkdownPieceModel::Text(inner@),
            MarkdownPiece::Code(inner) => MarkdownPieceModel::Code(inner@),
            MarkdownPiece::SoftBreak => MarkdownPieceModel::SoftBreak,
            MarkdownPiece::HardBreak => MarkdownPieceModel::HardBreak,
            MarkdownPiece::ParagraphEnd => MarkdownPieceModel::ParagraphEnd,
            MarkdownPiece::ItemEnd => MarkdownPieceModel::ItemEnd,
            MarkdownPiece::CodeBlockEnd => MarkdownPieceModel::CodeBlockEnd,
            MarkdownPiece::Rule => MarkdownPieceModel::Rule,
            MarkdownPiece::Other => MarkdownPieceModel::Other,
        }
    }
}

impl Clone for MarkdownPiece {
    fn clone(&self) -> (r: Self)
        ensures
            r@ == self@,
    {
        match self {
            MarkdownPiece::ImageStart => MarkdownPiece::ImageStart,
            MarkdownPiece::ImageEnd => MarkdownPiece::ImageEnd,
            MarkdownPiece::HeadingStart(inner) => MarkdownPiece::HeadingStart(*inner),
            MarkdownPiece::HeadingEnd => MarkdownPiece::HeadingEnd,
            MarkdownPiece::Text(inner) => MarkdownPiece::Text(inner.clone()),
            MarkdownPiece::Code(inner) => MarkdownPiece::Code(inner.clone()),
            MarkdownPiece::SoftBreak => MarkdownPiece::SoftBreak,
            MarkdownPiece::HardBreak => MarkdownPiece::HardBreak,
            MarkdownPiece::ParagraphEnd => MarkdownPiece::ParagraphEnd,
            MarkdownPiece::ItemEnd => MarkdownPiece::ItemEnd,
            MarkdownPiece::CodeBlockEnd => MarkdownPiece::CodeBlockEnd,
            MarkdownPiece::Rule => MarkdownPiece::Rule,
            MarkdownPiece::Other => MarkdownPiece::Other,
        }
    }
}

/// A part of a document with the path of its headings.
#[derive(Debug, PartialEq, Eq)]
pub struct MarkdownSection {
    pub heading: String,
    pub text: String,
}

/// The value of a [`MarkdownSection`].
#[verifier::ext_equal]
pub struct MarkdownSectionModel {
    pub heading: Seq<char>,
    pub text: Seq<char>,
}

impl View for MarkdownSection {
    type V = MarkdownSectionModel;

    open spec fn view(&self) -> MarkdownSectionModel {
        MarkdownSectionModel {
            heading: self.heading@,
            text: self.text@,
        }
    }
}

impl Clone for MarkdownSection {
    fn clone(&self) -> (r: Self)
        ensures
            r@ == self@,
    {
        MarkdownSection {
            heading: self.heading.clone(),
            text: self.text.clone(),
        }
    }
}

/// The values of the pieces.
pub open spec fn piece_models(pieces: Seq<MarkdownPiece>) -> Seq<MarkdownPieceModel> {
    Seq::new(pieces.len(), |i: int| pieces[i]@)
}

/// The values of the sections.
pub open spec fn section_models(sections: Seq<MarkdownSection>) -> Seq<MarkdownSectionModel> {
    Seq::new(sections.len(), |i: int| sections[i]@)
}

/// Whether all headings have a level from one to six.
pub open spec fn levels_are_sound(pieces: Seq<MarkdownPieceModel>) -> bool {
    forall|i: int|
        0 <= i < pieces.len() ==> match #[trigger] pieces[i] {
            MarkdownPieceModel::HeadingStart(level) => 1 <= level <= 6,
            _ => true,
        }
}

/// The steps in the reading of a document.
pub uninterp spec fn markdown_pieces(text: Seq<char>) -> Seq<MarkdownPieceModel>;

/// The events of `pulldown_cmark::Parser::new_ext` with all options, one piece
/// for each. They are a function of the text alone; what they are for a given
/// text is not stated, but that headings have one of the six levels of
/// `pulldown_cmark::HeadingLevel`.
#[verifier::external_body]
fn read_markdown(text: &str) -> (r: Vec<MarkdownPiece>)
    ensures
        piece_models(r@) == markdown_pieces(text@),
        levels_are_sound(piece_models(r@)),
{
    Parser::new_ext(text, Options::all()).map(|event| match event {
        Start(Tag::Image { .. }) => MarkdownPiece::ImageStart,
        End(TagEnd::Image) => MarkdownPiece::ImageEnd,
        Start(Tag::Heading { level, .. }) => MarkdownPiece::HeadingStart(level as usize),
        End(TagEnd::Heading(_)) => MarkdownPiece::HeadingEnd,
        Event::Text(text) => MarkdownPiece::Text(text.to_string()),
        Event::Code(text) => MarkdownPiece::Code(text.to_string()),
        Event::SoftBreak => MarkdownPiece::SoftBreak,
        Event::HardBreak => MarkdownPiece::HardBreak,
        End(TagEnd::Paragraph) => MarkdownPiece::ParagraphEnd,
        End(TagEnd::Item) => MarkdownPiece::ItemEnd,
        End(TagEnd::CodeBlock) => MarkdownPiece::CodeBlockEnd,
        Event::Rule => MarkdownPiece::Rule, _ => MarkdownPiece::Other,
    }).collect()
}

/// How far the reading of a document has come.
#[verifier::ext_equal]
pub struct ReadingModel {
    pub sections: Seq<MarkdownSectionModel>,
    /// The headings above, by their level; a level that was skipped is empty.
    pub headings: Seq<Seq<char>>,
    /// The level of the heading that is being read, from zero.
    pub level: Option<nat>,
    pub heading_text: Seq<char>,
    pub body: Seq<char>,
    /// How many images the place is inside of.
    pub image_depth: nat,
}

/// A text with more behind it, and a blank between where there is no white
/// space.
pub open spec fn with_inline(text: Seq<char>, more: Seq<char>) -> Seq<char> {
    if text.len() > 0 && !white(text.last()) && !(more.len() > 0 && white(more[0])) {
        text.push(' ') + more
    } else {
        text + more
    }
}

/// The paragraphs of a text, each with its white space made even, without
/// empty ones.
pub open spec fn even_paragraphs(text: Seq<char>) -> Seq<Seq<char>> {
    let parts = paragraphs(text);
    non_empty(Seq::new(parts.len(), |i: int| normalized(parts[i])))
}

/// A text with even paragraphs.
pub open spec fn even_body(text: Seq<char>) -> Seq<char> {
    join(even_paragraphs(text), "\n\n"@)
}

/// The headings that are not empty, as a path.
pub open spec fn heading_path(headings: Seq<Seq<char>>) -> Seq<char> {
    join(non_empty(headings), " > "@)
}

/// The headings with empty ones at the end, up to a number.
pub open spec fn filled(headings: Seq<Seq<char>>, count: nat) -> Seq<Seq<char>>
    decreases count - headings.len(),
{
    if headings.len() >= count {
        headings
    } else {
        filled(headings.push(Seq::empty()), count)
    }
}

/// The headings with the one of the given level replaced, and none below it.
pub open spec fn with_heading(headings: Seq<Seq<char>>, level: nat, heading: Seq<char>) -> Seq<
    Seq<char>,
> {
    let kept = if headings.len() > level {
        headings.take(level as int)
    } else {
        headings
    };
    filled(kept, level).push(heading)
}

impl ReadingModel {
    /// The reading with the text so far made a section.
    pub open spec fn section_closed(self) -> ReadingModel {
        let text = even_body(self.body);
        ReadingModel {
            sections: if text.len() == 0 {
                self.sections
            } else {
                self.sections.push(
                    MarkdownSectionModel { heading: heading_path(self.headings), text },
                )
            },
            body: Seq::empty(),
            ..self
        }
    }

    /// The reading with another heading or body text, whichever is read.
    pub open spec fn with_active(self, text: Seq<char>) -> ReadingModel {
        if self.level is Some {
            ReadingModel { heading_text: text, ..self }
        } else {
            ReadingModel { body: text, ..self }
        }
    }

    /// The heading or body text, whichever is read.
    pub open spec fn active(self) -> Seq<char> {
        if self.level is Some {
            self.heading_text
        } else {
            self.body
        }
    }

    /// The reading after a block of text has ended.
    pub open spec fn block_ended(self) -> ReadingModel {
        if self.level is Some {
            self
        } else {
            ReadingModel { body: self.body + "\n\n"@, ..self }
        }
    }

    /// The reading after one more piece. Inside an image nothing counts but
    /// its end.
    pub open spec fn after(self, piece: MarkdownPieceModel) -> ReadingModel {
        match piece {
            MarkdownPieceModel::ImageStart => ReadingModel {
                image_depth: self.image_depth + 1,
                ..self
            },
            MarkdownPieceModel::ImageEnd => ReadingModel {
                image_depth: if self.image_depth > 0 {
                    (self.image_depth - 1) as nat
                } else {
                    0
                },
                ..self
            },
            _ => if self.image_depth > 0 {
                self
            } else {
                match piece {
                    MarkdownPieceModel::HeadingStart(level) => ReadingModel {
                        level: Some((level - 1) as nat),
                        heading_text: Seq::empty(),
                        ..self.section_closed()
                    },
                    MarkdownPieceModel::HeadingEnd => match self.level {
                        Some(level) => {
                            let heading = normalized(self.heading_text);
                            ReadingModel {
                                level: None,
                                headings: if heading.len() == 0 {
                                    self.headings
                                } else {
                                    with_heading(self.headings, level, heading)
                                },
                                ..self
                            }
                        },
                        None => self,
                    },
                    MarkdownPieceModel::Text(text) => self.with_active(
                        with_inline(self.active(), text),
                    ),
                    MarkdownPieceModel::Code(text) => self.with_active(
                        with_inline(self.active(), text),
                    ),
                    MarkdownPieceModel::SoftBreak => self.with_active(
                        with_inline(self.active(), " "@),
                    ),
                    MarkdownPieceModel::HardBreak => self.with_active(self.active().push('\n')),
                    MarkdownPieceModel::ParagraphEnd => self.block_ended(),
                    MarkdownPieceModel::ItemEnd => self.block_ended(),
                    MarkdownPieceModel::CodeBlockEnd => self.block_ended(),
                    MarkdownPieceModel::Rule => self.block_ended(),
                    _ => self,
                }
            },
        }
    }
}

/// The reading of the pieces from the start.
pub open spec fn reading_of(pieces: Seq<MarkdownPieceModel>) -> ReadingModel
    decreases pieces.len(),
{
    if pieces.len() == 0 {
        ReadingModel {
            sections: Seq::empty(),
            headings: Seq::empty(),
            level: None,
            heading_text: Seq::empty(),
            body: Seq::empty(),
            image_depth: 0,
        }
    } else {
        reading_of(pieces.drop_last()).after(pieces.last())
    }
}

/// The sections of a document that is read in these steps.
pub open spec fn sections_of_pieces(pieces: Seq<MarkdownPieceModel>) -> Seq<MarkdownSectionModel> {
    reading_of(pieces).section_closed().sections
}

fn append_inline(output: &mut String, text: &str)
    ensures
        final(output)@ == with_inline(old(output)@, text@),
{
    let before = chars_of(output.as_str());
    let more = chars_of(text);
    let n: usize = before.len();
    if n > 0 && !is_white(before[n - 1]) && !(more.len() > 0 && is_white(more[0])) {
        output.push(' ');
    }
    output.append(text);
}

fn normalize_body(text: &str) -> (r: String)
    ensures
        r@ == even_body(text@),
{
    let parts = split_paragraphs(text);
    let ghost all = Seq::new(parts@.len(), |i: int| normalized(views(parts@)[i]));
    let mut out: Vec<String> = Vec::new();
    let mut i: usize = 0;
    assert(all.take(0) =~= Seq::empty());
    assert(views(out@) =~= Seq::empty());
    while i < parts.len()
        invariant
            all == Seq::new(parts@.len(), |i: int| normalized(views(parts@)[i])),
            i <= parts@.len(),
            views(out@) == non_empty(all.take(i as int)),
        decreases parts@.len() - i,
    {
        assert(all.take(i + 1).drop_last() =~= all.take(i as int));
        assert(all.take(i + 1).last() == normalized(parts@[i as int]@));
        let paragraph = normalize(parts[i].as_str());
        if !paragraph.as_str().is_empty() {
            let ghost before = views(out@);
            let ghost model = paragraph@;
            out.push(paragraph);
            assert(views(out@) =~= before.push(model));
        }
        i += 1;
    }
    assert(all.take(i as int) =~= all);
    assert(all =~= Seq::new(paragraphs(text@).len(), |i: int| normalized(paragraphs(text@)[i])));
    join_texts(&out, "\n\n")
}

fn join_headings(headings: &Vec<String>) -> (r: String)
    ensures
        r@ == heading_path(views(headings@)),
{
    let ghost all = views(headings@);
    let mut out: Vec<String> = Vec::new();
    let mut i: usize = 0;
    assert(all.take(0) =~= Seq::empty());
    assert(views(out@) =~= Seq::empty());
    while i < headings.len()
        invariant
            all == views(headings@),
            i <= headings@.len(),
            views(out@) == non_empty(all.take(i as int)),
        decreases headings@.len() - i,
    {
        assert(all.take(i + 1).drop_last() =~= all.take(i as int));
        assert(all.take(i + 1).last() == headings@[i as int]@);
        if !headings[i].as_str().is_empty() {
            let ghost before = views(out@);
            let ghost model = headings@[i as int]@;
            out.push(headings[i].clone());
            assert(views(out@) =~= before.push(model));
        }
        i += 1;
    }
    assert(all.take(i as int) =~= all);
    join_texts(&out, " > ")
}

struct Reading {
    sections: Vec<MarkdownSection>,
    headings: Vec<String>,
    level: Option<usize>,
    heading_text: String,
    body: String,
    image_depth: usize,
}

impl Reading {
    spec fn model(&self) -> ReadingModel {
        ReadingModel {
            sections: section_models(self.sections@),
            headings: views(self.headings@),
            level: match self.level {
                Some(level) => Some(level as nat),
                None => None,
            },
            heading_text: self.heading_text@,
            body: self.body@,
            image_depth: self.image_depth as nat,
        }
    }

    fn close_section(&mut self)
        ensures
            final(self).model() == old(self).model().section_closed(),
            final(self).level == old(self).level,
            final(self).image_depth == old(self).image_depth,
    {
        let text = normalize_body(self.body.as_str());
        self.body = String::new();
        if !text.as_str().is_empty() {
            let section = MarkdownSection { heading: join_headings(&self.headings), text };
            let ghost before = section_models(self.sections@);
            let ghost model = section@;
            self.sections.push(section);
            assert(section_models(self.sections@) =~= before.push(model));
        }
        assert(self.model() =~= old(self).model().section_closed());
    }

    fn add_inline(&mut self, text: &str)
        ensures
            final(self).model() == old(self).model().with_active(
                with_inline(old(self).model().active(), text@),
            ),
            final(self).image_depth == old(self).image_depth,
    {
        if self.level.is_some() {
            append_inline(&mut self.heading_text, text);
        } else {
            append_inline(&mut self.body, text);
        }
    }

    fn end_block(&mut self)
        ensures
            final(self).model() == old(self).model().block_ended(),
            final(self).image_depth == old(self).image_depth,
    {
        if self.level.is_none() {
            self.body.append("\n\n");
        }
    }

    fn set_heading(&mut self, level: usize, heading: String)
        requires
            level < 6,
        ensures
            final(self).model() == (ReadingModel {
                headings: with_heading(old(self).model().headings, level as nat, heading@),
                ..old(self).model()
            }),
            final(self).image_depth == old(self).image_depth,
            final(self).level == old(self).level,
    {
        let ghost start = views(self.headings@);
        if self.headings.len() > level {
            self.headings.truncate(level);
            assert(views(self.headings@) =~= start.take(level as int));
        }
        let ghost kept = views(self.headings@);
        let ghost rest = self.model();
        while self.headings.len() < level
            invariant
                self.headings@.len() <= level,
                filled(kept, level as nat) == filled(views(self.headings@), level as nat),
                self.model() == (ReadingModel { headings: views(self.headings@), ..rest }),
                self.image_depth == old(self).image_depth,
                self.level == old(self).level,
            decreases level - self.headings@.len(),
        {
            let ghost before = views(self.headings@);
            self.headings.push(String::new());
            assert(views(self.headings@) =~= before.push(Seq::empty()));
        }
        let ghost before = views(self.headings@);
        let ghost model = heading@;
        self.headings.push(heading);
        assert(views(self.headings@) =~= before.push(model));
    }

    fn take(&mut self, piece: &MarkdownPiece)
        requires
            old(self).image_depth < usize::MAX,
            old(self).level matches Some(level) ==> level < 6,
            piece@ matches MarkdownPieceModel::HeadingStart(level) ==> 1 <= level <= 6,
        ensures
            final(self).model() == old(self).model().after(piece@),
            final(self).level matches Some(level) ==> level < 6,
            final(self).image_depth <= old(self).image_depth + 1,
    {
        let ghost before = self.model();
        match piece {
            MarkdownPiece::ImageStart => {
                self.image_depth += 1;
                return;
            },
            MarkdownPiece::ImageEnd => {
                if self.image_depth > 0 {
                    self.image_depth -= 1;
                }
                return;
            },
            _ => {},
        }
        if self.image_depth > 0 {
            return;
        }
        match piece {
            MarkdownPiece::HeadingStart(level) => {
                self.close_section();
                self.level = Some(*level - 1);
                self.heading_text = String::new();
            },
            MarkdownPiece::HeadingEnd => {
                if let Some(level) = self.level {
                    self.level = None;
                    let heading = normalize(self.heading_text.as_str());
                    if !heading.as_str().is_empty() {
                        self.set_heading(level, heading);
                    }
                }
            },
            MarkdownPiece::Text(text) => {
                self.add_inline(text.as_str());
            },
            MarkdownPiece::Code(text) => {
                self.add_inline(text.as_str());
            },
            MarkdownPiece::SoftBreak => {
                self.add_inline(" ");
            },
            MarkdownPiece::HardBreak => {
                if self.level.is_some() {
                    self.heading_text.push('\n');
                } else {
                    self.body.push('\n');
                }
            },
            MarkdownPiece::ParagraphEnd => {
                self.end_block();
            },
            MarkdownPiece::ItemEnd => {
                self.end_block();
            },
            MarkdownPiece::CodeBlockEnd => {
                self.end_block();
            },
            MarkdownPiece::Rule => {
                self.end_block();
            },
            _ => {},
        }
        assert(self.model() =~= before.after(piece@));
    }
}

/// The sections of a document that is read in these steps.
pub fn collect_sections(pieces: &Vec<MarkdownPiece>) -> (r: Vec<MarkdownSection>)
    requires
        levels_are_sound(piece_models(pieces@)),
    ensures
        section_models(r@) == sections_of_pieces(piece_models(pieces@)),
{
    let ghost all = piece_models(pieces@);
    let mut reading = Reading {
        sections: Vec::new(),
        headings: Vec::new(),
        level: None,
        heading_text: String::new(),
        body: String::new(),
        image_depth: 0,
    };
    assert(all.take(0) =~= Seq::empty());
    assert(reading.model() =~= reading_of(all.take(0)));
    let mut i: usize = 0;
    while i < pieces.len()
        invariant
            all == piece_models(pieces@),
            levels_are_sound(all),
            i <= pieces@.len(),
            reading.image_depth <= i,
            reading.level matches Some(level) ==> level < 6,
            reading.model() == reading_of(all.take(i as int)),
        decreases pieces@.len() - i,
    {
        assert(all.take(i + 1).drop_last() =~= all.take(i as int));
        assert(all.take(i + 1).last() == all[i as int]);
        reading.take(&pieces[i]);
        i += 1;
    }
    assert(all.take(i as int) =~= all);
    reading.close_section();
    reading.sections
}

/// The sections of the document.
pub fn parse_markdown(markdown: &str) -> (r: Vec<MarkdownSection>)
    ensures
        section_models(r@) == sections_of_pieces(markdown_pieces(markdown@)),
{
    let pieces = read_markdown(markdown);
    collect_sections(&pieces)
}

/// Nothing inside an image gets into a section: a piece there changes the
/// reading only where it begins or ends an image.
pub proof fn images_are_dropped(reading: ReadingModel, piece: MarkdownPieceModel)
    requires
        reading.image_depth > 0,
    ensures
        reading.after(piece) == (ReadingModel {
            image_depth: reading.after(piece).image_depth,
            ..reading
        }),
        !(piece is ImageStart) && !(piece is ImageEnd) ==> reading.after(piece) == reading,
{
    assert(reading.after(piece) =~= ReadingModel {
        image_depth: reading.after(piece).image_depth,
        ..reading
    });
}

proof fn filled_has_the_length(headings: Seq<Seq<char>>, count: nat)
    requires
        headings.len() <= count,
    ensures
        filled(headings, count).len() == count,
    decreases count - headings.len(),
{
    if headings.len() < count {
        filled_has_the_length(headings.push(Seq::empty()), count);
    }
}

/// A heading stands on its level and closes all headings below it.
pub proof fn a_heading_closes_those_below(
    headings: Seq<Seq<char>>,
    level: nat,
    heading: Seq<char>,
)
    ensures
        with_heading(headings, level, heading).len() == level + 1,
        with_heading(headings, level, heading).last() == heading,
        headings.len() >= level ==> with_heading(headings, level, heading).take(level as int)
            == headings.take(level as int),
{
    let kept = if headings.len() > level {
        headings.take(level as int)
    } else {
        headings
    };
    filled_has_the_length(kept, level);
    if headings.len() >= level {
        assert(with_heading(headings, level, heading).take(level as int) =~= headings.take(
            level as int,
        ));
    }
}

proof fn sections_have_text_so_far(pieces: Seq<MarkdownPieceModel>)
    ensures
        forall|k: int|
            0 <= k < reading_of(pieces).sections.len() ==> (
            #[trigger] reading_of(pieces).sections[k]).text.len() > 0,
    decreases pieces.len(),
{
    if pieces.len() > 0 {
        sections_have_text_so_far(pieces.drop_last());
    }
}

/// Every section has text.
pub proof fn sections_have_text(pieces: Seq<MarkdownPieceModel>)
    ensures
        forall|k: int|
            0 <= k < sections_of_pieces(pieces).len() ==> (
            #[trigger] sections_of_pieces(pieces)[k]).text.len() > 0,
{
    sections_have_text_so_far(pieces);
}

/// Runs are put together with a blank between them exactly where there is text
/// before and neither has white space at the seam.
pub proof fn runs_are_parted_by_white_space(text: Seq<char>, more: Seq<char>)
    ensures
        with_inline(Seq::empty(), more) == more,
        text.len() > 0 && white(text.last()) ==> with_inline(text, more) == text + more,
        more.len() > 0 && white(more[0]) ==> with_inline(text, more) == text + more,
        text.len() > 0 && !white(text.last()) && !(more.len() > 0 && white(more[0]))
            ==> with_inline(text, more) == text + seq![' '] + more,
{
    assert(Seq::<char>::empty() + more =~= more);
    assert(text.push(' ') =~= text + seq![' ']);
}

/// The text of a section is made of its paragraphs that are not blank, in
/// order, with single blanks inside and an empty line between each two.
pub proof fn sections_are_made_of_paragraphs(text: Seq<char>)
    ensures
        even_paragraphs(text) == paragraphs(text).map_values(
            |part: Seq<char>| normalized(part),
        ).filter(|part: Seq<char>| part.len() > 0),
        even_body(text) == join(even_paragraphs(text), seq!['\n', '\n']),
{
    reveal_strlit("\n\n");
    assert("\n\n"@ =~= seq!['\n', '\n']);
    let parts = paragraphs(text);
    let even = Seq::new(parts.len(), |i: int| normalized(parts[i]));
    assert(even =~= parts.map_values(|part: Seq<char>| normalized(part)));
    non_empty_texts_are_chosen(even);
}

/// The headings above a place are put together from the outermost, without
/// those that were skipped.
pub proof fn headings_are_named_from_the_outermost(headings: Seq<Seq<char>>)
    ensures
        heading_path(headings) == join(
            headings.filter(|heading: Seq<char>| heading.len() > 0),
            seq![' ', '>', ' '],
        ),
{
    reveal_strlit(" > ");
    assert(" > "@ =~= seq![' ', '>', ' ']);
    non_empty_texts_are_chosen(headings);
}

proof fn filling_adds_nothing(headings: Seq<Seq<char>>, count: nat)
    ensures
        headings.len() <= count ==> filled(headings, count).len() == count,
        headings.len() > count ==> filled(headings, count) == headings,
        forall|k: int|
            0 <= k < headings.len() ==> #[trigger] filled(headings, count)[k] == headings[k],
        forall|k: int|
            headings.len() <= k < count ==> (#[trigger] filled(headings, count)[k]).len() == 0,
    decreases count - headings.len(),
{
    if headings.len() < count {
        let more = headings.push(Seq::empty());
        filling_adds_nothing(more, count);
        assert forall|k: int| 0 <= k < headings.len() implies #[trigger] filled(headings, count)[k]
            == headings[k] by {
            assert(filled(more, count)[k] == more[k]);
        }
        assert forall|k: int| headings.len() <= k < count implies (#[trigger] filled(
            headings,
            count,
        )[k]).len() == 0 by {
            if k == headings.len() {
                assert(filled(more, count)[k] == more[k]);
            }
        }
    }
}

/// A heading stands at its level; those above it stay, and levels that were
/// skipped are empty.
pub proof fn skipped_levels_are_empty(
    headings: Seq<Seq<char>>,
    level: nat,
    heading: Seq<char>,
    k: int,
)
    requires
        0 <= k < level,
    ensures
        k < headings.len() ==> with_heading(headings, level, heading)[k] == headings[k],
        k >= headings.len() ==> with_heading(headings, level, heading)[k].len() == 0,
        with_heading(headings, level, heading).len() == level + 1,
        with_heading(headings, level, heading)[level as int] == heading,
{
    let kept = if headings.len() > level {
        headings.take(level as int)
    } else {
        headings
    };
    filling_adds_nothing(kept, level);
    assert(with_heading(headings, level, heading)[k] == filled(kept, level)[k]);
}

/// Text and code go into the heading where one is being read, and else into the
/// body; breaks of a line are white space in them, and the ends of blocks part
/// paragraphs of the body.
pub proof fn pieces_go_where_they_stand(reading: ReadingModel, text: Seq<char>)
    requires
        reading.image_depth == 0,
    ensures
        reading.level is Some ==> {
            let longer = ReadingModel {
                heading_text: with_inline(reading.heading_text, text),
                ..reading
            };
            &&& reading.after(MarkdownPieceModel::Text(text)) == longer
            &&& reading.after(MarkdownPieceModel::Code(text)) == longer
            &&& reading.after(MarkdownPieceModel::SoftBreak) == (ReadingModel {
                heading_text: with_inline(reading.heading_text, seq![' ']),
                ..reading
            })
            &&& reading.after(MarkdownPieceModel::HardBreak) == (ReadingModel {
                heading_text: reading.heading_text.push('\n'),
                ..reading
            })
            &&& reading.after(MarkdownPieceModel::ParagraphEnd) == reading
            &&& reading.after(MarkdownPieceModel::ItemEnd) == reading
            &&& reading.after(MarkdownPieceModel::CodeBlockEnd) == reading
            &&& reading.after(MarkdownPieceModel::Rule) == reading
        },
        reading.level is None ==> {
            let longer = ReadingModel { body: with_inline(reading.body, text), ..reading };
            let ended = ReadingModel { body: reading.body + seq!['\n', '\n'], ..reading };
            &&& reading.after(MarkdownPieceModel::Text(text)) == longer
            &&& reading.after(MarkdownPieceModel::Code(text)) == longer
            &&& reading.after(MarkdownPieceModel::SoftBreak) == (ReadingModel {
                body: with_inline(reading.body, seq![' ']),
                ..reading
            })
            &&& reading.after(MarkdownPieceModel::HardBreak) == (ReadingModel {
                body: reading.body.push('\n'),
                ..reading
            })
            &&& reading.after(MarkdownPieceModel::ParagraphEnd) == ended
            &&& reading.after(MarkdownPieceModel::ItemEnd) == ended
            &&& reading.after(MarkdownPieceModel::CodeBlockEnd) == ended
            &&& reading.after(MarkdownPieceModel::Rule) == ended
        },
        reading.after(MarkdownPieceModel::Other) == reading,
{
    reveal_strlit(" ");
    reveal_strlit("\n\n");
    assert(" "@ =~= seq![' ']);
    assert("\n\n"@ =~= seq!['\n', '\n']);
}

/// A heading ends the section before it, which is kept under the headings above
/// it where it has text; when the heading is read it takes its level, unless it
/// is blank.
pub proof fn headings_end_sections(reading: ReadingModel, level: usize)
    requires
        reading.image_depth == 0,
        1 <= level <= 6,
    ensures
        ({
            let r = reading.after(MarkdownPieceModel::HeadingStart(level));
            let text = even_body(reading.body);
            &&& r.level == Some((level - 1) as nat)
            &&& r.heading_text.len() == 0
            &&& r.body.len() == 0
            &&& r.headings == reading.headings
            &&& text.len() == 0 ==> r.sections == reading.sections
            &&& text.len() > 0 ==> r.sections == reading.sections.push(
                MarkdownSectionModel { heading: heading_path(reading.headings), text },
            )
        }),
        ({
            let r = reading.after(MarkdownPieceModel::HeadingEnd);
            &&& reading.level is None ==> r == reading
            &&& reading.level matches Some(at) ==> {
                &&& r.level is None
                &&& r.body == reading.body
                &&& r.sections == reading.sections
                &&& normalized(reading.heading_text).len() > 0 ==> r.headings == with_heading(
                    reading.headings,
                    at,
                    normalized(reading.heading_text),
                )
                &&& normalized(reading.heading_text).len() == 0 ==> r.headings == reading.headings
            }
        }),
{
}

/// A document is read piece by piece, and what is left at its end is its last
/// section.
pub proof fn documents_are_read_piece_by_piece(
    pieces: Seq<MarkdownPieceModel>,
    piece: MarkdownPieceModel,
)
    ensures
        reading_of(pieces.push(piece)) == reading_of(pieces).after(piece),
        reading_of(Seq::empty()).sections.len() == 0,
        reading_of(Seq::empty()).headings.len() == 0,
        reading_of(Seq::empty()).level is None,
        reading_of(Seq::empty()).body.len() == 0,
        reading_of(Seq::empty()).image_depth == 0,
        ({
            let r = reading_of(pieces);
            let text = even_body(r.body);
            &&& text.len() == 0 ==> sections_of_pieces(pieces) == r.sections
            &&& text.len() > 0 ==> sections_of_pieces(pieces) == r.sections.push(
                MarkdownSectionModel { heading: heading_path(r.headings), text },
            )
        }),
        reading_of(pieces).after(MarkdownPieceModel::ImageStart).image_depth == reading_of(
            pieces,
        ).image_depth + 1,
        reading_of(pieces).image_depth > 0 ==> reading_of(pieces).after(
            MarkdownPieceModel::ImageEnd,
        ).image_depth == reading_of(pieces).image_depth - 1,
{
    assert(pieces.push(piece).drop_last() =~= pieces);
}

/// Headings have six levels: a document is sound exactly where none of its
/// headings has another.
pub proof fn headings_have_six_levels(pieces: Seq<MarkdownPieceModel>, level: usize)
    ensures
        levels_are_sound(pieces.push(MarkdownPieceModel::HeadingStart(level))) <==> levels_are_sound(
            pieces,
        ) && (level == 1 || level == 2 || level == 3 || level == 4 || level == 5 || level == 6),
        levels_are_sound(Seq::empty()),
{
    let more = pieces.push(MarkdownPieceModel::HeadingStart(level));
    assert(more[pieces.len() as int] == MarkdownPieceModel::HeadingStart(level));
    if levels_are_sound(more) {
        assert forall|i: int| 0 <= i < pieces.len() implies match #[trigger] pieces[i] {
            MarkdownPieceModel::HeadingStart(level) => 1 <= level <= 6,
            _ => true,
        } by {
            assert(more[i] == pieces[i]);
        }
    }
}

} // verus!
