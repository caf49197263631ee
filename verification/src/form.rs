//! The four-field note form (title, body, tags, due), each field its own text
//! editor, with focus cycling and the parsing done on submit: trimmed
//! non-empty title, whitespace-or-comma separated tags, and an optional due
//! date in the fixed `YYYY.MM.DD@hh:mm` form.

use vstd::prelude::*;
use crate::editor::FieldValue;
use crate::model::{id_views, Note};
use crate::text::{chars_string, is_space, is_space_char, spec_trim, str_chars, trim_chars};
use crate::time::{due_text, dt_of_text, is_due_text, parse_due, DateTime};

verus! {

/// Tag separators: whitespace or a comma.
pub open spec fn is_tag_sep(c: char) -> bool {
    is_space(c) || c == ','
}

/// The tag tokens of `s` from position `i` on, with `cur` the token read so
/// far: maximal runs of non-separator characters, in input order.
pub open spec fn tags_from(s: Seq<char>, i: int, cur: Seq<char>) -> Seq<Seq<char>>
    decreases s.len() - i,
{
    if i < 0 || i >= s.len() {
        if cur.len() > 0 {
            seq![cur]
        } else {
            Seq::empty()
        }
    } else if is_tag_sep(s[i]) {
        (if cur.len() > 0 {
            seq![cur]
        } else {
            Seq::empty()
        }) + tags_from(s, i + 1, Seq::empty())
    } else {
        tags_from(s, i + 1, cur.push(s[i]))
    }
}

/// All tag tokens of `s`, in order; empty tokens are discarded.
pub open spec fn tags_of(s: Seq<char>) -> Seq<Seq<char>> {
    tags_from(s, 0, Seq::empty())
}

/// Splits the characters of a tag field on whitespace and commas.
fn parse_tag_chars(v: &Vec<char>) -> (r: Vec<String>)
    ensures
        id_views(r@) == tags_of(v@),
{
    let n = v.len();
    let mut out: Vec<String> = Vec::new();
    let mut cur: Vec<char> = Vec::new();
    let mut i: usize = 0;
    while i < n
        invariant
            0 <= i <= n,
            n == v@.len(),
            id_views(out@) + tags_from(v@, i as int, cur@) == tags_of(v@),
        decreases n - i,
    {
        let ghost out0 = out@;
        let ghost cur0 = cur@;
        let c = v[i];
        if is_space_char(c) || c == ',' {
            if cur.len() > 0 {
                out.push(chars_string(&cur));
                cur = Vec::new();
                proof {
                    assert(id_views(out@) =~= id_views(out0).push(cur0));
                    assert(id_views(out@) + tags_from(v@, i + 1, Seq::empty()) =~= id_views(out0)
                        + tags_from(v@, i as int, cur0));
                }
            } else {
                proof {
                    assert(cur@ =~= Seq::<char>::empty());
                    assert(id_views(out@) + tags_from(v@, i + 1, Seq::empty()) =~= id_views(out0)
                        + tags_from(v@, i as int, cur0));
                }
            }
        } else {
            cur.push(c);
            proof {
                assert(cur@ == cur0.push(v@[i as int]));
                assert(tags_from(v@, i as int, cur0) == tags_from(v@, i + 1, cur@));
            }
        }
        i += 1;
    }
    if cur.len() > 0 {
        let ghost out0 = out@;
        let ghost cur0 = cur@;
        out.push(chars_string(&cur));
        proof {
            assert(id_views(out@) =~= id_views(out0).push(cur0));
            assert(id_views(out@) =~= id_views(out0) + tags_from(v@, n as int, cur0));
        }
    } else {
        proof {
            assert(id_views(out@) =~= id_views(out@) + tags_from(v@, n as int, cur@));
        }
    }
    out
}

/// Splits a tag field on whitespace and commas, discarding empty tokens and
/// preserving order.
pub fn parse_tags(input: &str) -> (r: Vec<String>)
    ensures
        id_views(r@) == tags_of(input@),
{
    let v = str_chars(input);
    parse_tag_chars(&v)
}

/// The tag field's rendering of a tag list: the tags joined with single
/// blanks.
pub open spec fn join_tags(ts: Seq<String>) -> Seq<char>
    decreases ts.len(),
{
    if ts.len() == 0 {
        Seq::empty()
    } else if ts.len() == 1 {
        ts[0]@
    } else {
        join_tags(ts.drop_last()) + seq![' '] + ts.last()@
    }
}

/// Which form field has focus.
#[derive(Clone, Copy, PartialEq, Eq, Structural, Debug)]
pub enum FormField {
    Title,
    Body,
    Tags,
    Due,
}

/// The field after focus cycles forward.
pub open spec fn next_field_of(f: FormField) -> FormField {
    match f {
        FormField::Title => FormField::Body,
        FormField::Body => FormField::Tags,
        FormField::Tags => FormField::Due,
        FormField::Due => FormField::Title,
    }
}

/// The field after focus cycles backward.
pub open spec fn prev_field_of(f: FormField) -> FormField {
    match f {
        FormField::Title => FormField::Due,
        FormField::Body => FormField::Title,
        FormField::Tags => FormField::Body,
        FormField::Due => FormField::Tags,
    }
}

/// Rejection of a form submit: a blank title, or a due field that is neither
/// empty nor a well-formed date.
#[derive(Clone, Copy, PartialEq, Eq, Structural, Debug)]
pub enum FormError {
    TitleRequired,
    InvalidDue,
}

/// What a successfully submitted form says a note should hold.
pub struct NoteInput {
    pub title: String,
    pub body: Option<String>,
    pub tags: Vec<String>,
    pub due: Option<DateTime>,
}

/// The note form: one editor per field plus the focused-field pointer.
#[derive(Debug, Clone)]
pub struct NoteForm {
    pub title: FieldValue,
    pub body: FieldValue,
    pub tags: FieldValue,
    pub due: FieldValue,
    pub field: FormField,
}

impl NoteForm {
    /// Every field's cursor sits inside its buffer.
    pub open spec fn wf(self) -> bool {
        self.title.wf() && self.body.wf() && self.tags.wf() && self.due.wf()
    }

    /// Whether a submit of this form is accepted: the title is non-empty
    /// after trimming and the due field is empty or spells a real timestamp.
    pub open spec fn parses(self) -> bool {
        spec_trim(self.title.text()).len() > 0 && (spec_trim(self.due.text()).len() == 0
            || is_due_text(spec_trim(self.due.text())))
    }

    /// The focused field.
    pub open spec fn active(self) -> FieldValue {
        match self.field {
            FormField::Title => self.title,
            FormField::Body => self.body,
            FormField::Tags => self.tags,
            FormField::Due => self.due,
        }
    }

    /// This form with the focused field replaced by `fv`.
    pub open spec fn with_active(self, fv: FieldValue) -> NoteForm {
        match self.field {
            FormField::Title => NoteForm { title: fv, ..self },
            FormField::Body => NoteForm { body: fv, ..self },
            FormField::Tags => NoteForm { tags: fv, ..self },
            FormField::Due => NoteForm { due: fv, ..self },
        }
    }

    /// A form freshly seeded from `note` for editing: the title and body as
    /// stored, the tags joined with blanks, the due date in its textual form,
    /// the title focused and every cursor at the end of its field.
    pub open spec fn seeded_from(self, note: Note) -> bool {
        &&& self.wf()
        &&& self.field == FormField::Title
        &&& self.title.text() == note.title@
        &&& self.body.text() == (match note.body {
            Some(b) => b@,
            None => Seq::<char>::empty(),
        })
        &&& self.tags.text() == join_tags(note.tags@)
        &&& self.due.text() == (match note.due {
            Some(d) => due_text(d),
            None => Seq::<char>::empty(),
        })
        &&& self.title.cursor == self.title.text().len()
        &&& self.body.cursor == self.body.text().len()
        &&& self.tags.cursor == self.tags.text().len()
        &&& self.due.cursor == self.due.text().len()
    }

    /// An empty form, focused on the title.
    pub fn new() -> (f: NoteForm)
        ensures
            f.wf(),
            f.field == FormField::Title,
            f.title.text().len() == 0,
            f.body.text().len() == 0,
            f.tags.text().len() == 0,
            f.due.text().len() == 0,
    {
        proof {
            reveal_strlit("");
        }
        NoteForm {
            title: FieldValue::new(""),
            body: FieldValue::new(""),
            tags: FieldValue::new(""),
            due: FieldValue::new(""),
            field: FormField::Title,
        }
    }

    /// A form pre-seeded from an existing note, focused on the title: the
    /// title and body as stored, the tags joined with blanks, the due date in
    /// its textual form.
    pub fn from_note(note: &Note) -> (f: NoteForm)
        requires
            note.due_valid(),
        ensures
            f.seeded_from(*note),
    {
        proof {
            reveal_strlit("");
        }
        let title = FieldValue::new(note.title.as_str());
        let body = match &note.body {
            Some(b) => FieldValue::new(b.as_str()),
            None => FieldValue::new(""),
        };
        let mut joined: Vec<char> = Vec::new();
        let ntags = note.tags.len();
        let mut i: usize = 0;
        while i < ntags
            invariant
                0 <= i <= ntags,
                ntags == note.tags@.len(),
                joined@ == join_tags(note.tags@.subrange(0, i as int)),
            decreases ntags - i,
        {
            let ghost j0 = joined@;
            if i > 0 {
                joined.push(' ');
            }
            let mut tv = str_chars(note.tags[i].as_str());
            joined.append(&mut tv);
            proof {
                let pre1 = note.tags@.subrange(0, i + 1);
                assert(pre1.drop_last() =~= note.tags@.subrange(0, i as int));
                assert(pre1.last() == note.tags@[i as int]);
                if i == 0 {
                    assert(joined@ =~= join_tags(pre1));
                } else {
                    assert(joined@ =~= join_tags(pre1.drop_last()) + seq![' '] + pre1.last()@);
                }
            }
            i += 1;
        }
        proof {
            assert(note.tags@.subrange(0, ntags as int) =~= note.tags@);
        }
        let tags = FieldValue { cursor: joined.len(), chars: joined };
        let due = match &note.due {
            Some(d) => {
                let s = crate::time::format_due(d);
                FieldValue::new(s.as_str())
            },
            None => FieldValue::new(""),
        };
        let f = NoteForm { title, body, tags, due, field: FormField::Title };
        proof {
            assert(f.wf());
            assert(f.title.text() == note.title@);
            assert(f.body.text() == (match note.body {
                Some(b) => b@,
                None => Seq::<char>::empty(),
            }));
            assert(f.tags.text() == join_tags(note.tags@));
            assert(f.due.text() == (match note.due {
                Some(d) => due_text(d),
                None => Seq::<char>::empty(),
            }));
            assert(f.title.cursor == f.title.text().len());
            assert(f.body.cursor == f.body.text().len());
            assert(f.tags.cursor == f.tags.text().len());
            assert(f.due.cursor == f.due.text().len());
            assert(f.seeded_from(*note));
        }
        f
    }

    /// Moves focus to the next field in the fixed Title, Body, Tags, Due
    /// cycle.
    pub fn next_field(&mut self)
        ensures
            final(self).title == old(self).title,
            final(self).body == old(self).body,
            final(self).tags == old(self).tags,
            final(self).due == old(self).due,
            final(self).field == next_field_of(old(self).field),
    {
        self.field = match self.field {
            FormField::Title => FormField::Body,
            FormField::Body => FormField::Tags,
            FormField::Tags => FormField::Due,
            FormField::Due => FormField::Title,
        };
    }

    /// Moves focus to the previous field in the cycle.
    pub fn prev_field(&mut self)
        ensures
            final(self).title == old(self).title,
            final(self).body == old(self).body,
            final(self).tags == old(self).tags,
            final(self).due == old(self).due,
            final(self).field == prev_field_of(old(self).field),
    {
        self.field = match self.field {
            FormField::Title => FormField::Due,
            FormField::Body => FormField::Title,
            FormField::Tags => FormField::Body,
            FormField::Due => FormField::Tags,
        };
    }

    /// A mutable borrow of the focused field; the other fields and the focus
    /// stay as they are.
    pub fn active_field_mut(&mut self) -> (r: &mut FieldValue)
        ensures
            old(self).field == FormField::Title ==> *r == old(self).title && *final(self) == (
            NoteForm { title: *final(r), ..*old(self) }),
            old(self).field == FormField::Body ==> *r == old(self).body && *final(self) == (
            NoteForm { body: *final(r), ..*old(self) }),
            old(self).field == FormField::Tags ==> *r == old(self).tags && *final(self) == (
            NoteForm { tags: *final(r), ..*old(self) }),
            old(self).field == FormField::Due ==> *r == old(self).due && *final(self) == (NoteForm {
                due: *final(r),
                ..*old(self)
            }),
    {
        match self.field {
            FormField::Title => &mut self.title,
            FormField::Body => &mut self.body,
            FormField::Tags => &mut self.tags,
            FormField::Due => &mut self.due,
        }
    }

    /// Parses the form on submit. The title must be non-empty after trimming;
    /// a non-empty due field must spell a real `YYYY.MM.DD@hh:mm` timestamp;
    /// tags come from splitting the tag field; a body of only whitespace
    /// means no body.
    pub fn parse_input(&self) -> (r: Result<NoteInput, FormError>)
        requires
            self.wf(),
        ensures
            r == Err::<NoteInput, FormError>(FormError::TitleRequired) <==> spec_trim(
                self.title.text(),
            ).len() == 0,
            spec_trim(self.title.text()).len() > 0 ==> (r == Err::<NoteInput, FormError>(
                FormError::InvalidDue,
            ) <==> (spec_trim(self.due.text()).len() > 0 && !is_due_text(
                spec_trim(self.due.text()),
            ))),
            r matches Ok(inp) ==> inp.title@ == spec_trim(self.title.text()) && id_views(inp.tags@)
                == tags_of(self.tags.text()) && (spec_trim(self.body.text()).len() == 0
                ==> inp.body is None) && (spec_trim(self.body.text()).len() > 0 ==> (inp.body
                matches Some(b) && b@ == self.body.text())) && (spec_trim(self.due.text()).len()
                == 0 ==> inp.due is None) && (spec_trim(self.due.text()).len() > 0 ==> (inp.due
                matches Some(d) && d == dt_of_text(spec_trim(self.due.text())) && d.valid())),
            r is Ok <==> self.parses(),
    {
        let tchars = trim_chars(&self.title.chars);
        if tchars.len() == 0 {
            return Err(FormError::TitleRequired);
        }
        let due_string = chars_string(&self.due.chars);
        let due = match parse_due(due_string.as_str()) {
            Ok(d) => d,
            Err(_e) => {
                return Err(FormError::InvalidDue);
            },
        };
        let title = chars_string(&tchars);
        let tags = parse_tag_chars(&self.tags.chars);
        let btrim = trim_chars(&self.body.chars);
        let body = if btrim.len() == 0 {
            None
        } else {
            Some(chars_string(&self.body.chars))
        };
        Ok(NoteInput { title, body, tags, due })
    }
}

} // verus!
