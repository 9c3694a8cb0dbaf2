//! The registration mail: what it says, from whom and to whom.

use crate::account::Account;
use vstd::prelude::*;

verus! {

/// The name and the file of the template of the mail's body.
pub const BODY_TEMPLATE: (&'static str, &'static str) = ("register_body", "emails/register_body.hbs");

/// The name and the file of the template of the mail's subject.
pub const SUBJECT_TEMPLATE: (&'static str, &'static str) = (
    "register_subject",
    "emails/register_subject.hbs",
);

/// The name under which the templates are given the link.
pub const URL_KEY: &'static str = "url";

/// A mail to send: sender, receiver, subject and body.
#[derive(Debug)]
pub struct Message {
    pub from_name: String,
    pub from_email: String,
    pub to: String,
    pub subject: String,
    pub body: String,
}

/// Where the first line of a text ends: the place of its first line feed,
/// or its length where it has none.
pub open spec fn line_end(text: Seq<char>) -> int
    decreases text.len(),
{
    if text.len() == 0 || text[0] == '\n' {
        0
    } else {
        1 + line_end(text.drop_first())
    }
}

/// The first line of a text, without its line ending: a line feed, or a
/// carriage return and a line feed.
pub open spec fn first_line(text: Seq<char>) -> Seq<char> {
    let end = line_end(text);
    if 0 < end < text.len() && text[end - 1] == '\r' {
        text.take(end - 1)
    } else {
        text.take(end)
    }
}

/// The end of the first line is the first place that holds a line feed.
pub proof fn lemma_line_end(text: Seq<char>)
    ensures
        0 <= line_end(text) <= text.len(),
        forall|i: int| 0 <= i < line_end(text) ==> #[trigger] text[i] != '\n',
        line_end(text) < text.len() ==> text[line_end(text)] == '\n',
    decreases text.len(),
{
    if text.len() > 0 && text[0] != '\n' {
        let rest = text.drop_first();
        lemma_line_end(rest);
        assert forall|i: int| 0 <= i < line_end(text) implies #[trigger] text[i] != '\n' by {
            if i > 0 {
                assert(text[i] == rest[i - 1]);
            }
        }
        if line_end(text) < text.len() {
            assert(text[line_end(text)] == rest[line_end(rest)]);
        }
    }
}

/// A place that holds the first line feed of a text, or its length where no
/// place before it holds one, is the end of the first line.
pub proof fn lemma_line_end_is(text: Seq<char>, end: int)
    requires
        0 <= end <= text.len(),
        forall|i: int| 0 <= i < end ==> #[trigger] text[i] != '\n',
        end < text.len() ==> text[end] == '\n',
    ensures
        line_end(text) == end,
{
    lemma_line_end(text);
    let found = line_end(text);
    if found < end {
        assert(text[found] == '\n');
    } else if end < found {
        assert(text[end] != '\n');
    }
}

/// The first line of a rendered template; `None` for an empty text, which
/// has no line.
pub fn subject_line(rendered: &str) -> (line: Option<String>)
    ensures
        line.is_some() <==> rendered@.len() > 0,
        line.is_some() ==> line.unwrap()@ == first_line(rendered@),
{
    let n: usize = rendered.unicode_len();
    if n == 0 {
        return None;
    }
    let mut end: usize = 0;
    while end < n && rendered.get_char(end) != '\n'
        invariant
            end <= n,
            n == rendered@.len(),
            forall|i: int| 0 <= i < end ==> #[trigger] rendered@[i] != '\n',
        decreases n - end,
    {
        end += 1;
    }
    proof {
        lemma_line_end_is(rendered@, end as int);
    }
    let cut: usize = if 0 < end && end < n && rendered.get_char(end - 1) == '\r' {
        end - 1
    } else {
        end
    };
    let line = rendered.substring_char(0, cut);
    assert(line@ =~= first_line(rendered@));
    Some(String::from_str(line))
}

/// The registration mail to `account`, from the rendered templates: the
/// subject is the first line of what the subject template gave.
pub fn build_message(
    from_name: &str,
    from_email: &str,
    account: &Account,
    rendered_subject: &str,
    rendered_body: String,
) -> (message: Message)
    requires
        rendered_subject@.len() > 0,
    ensures
        message.from_name@ == from_name@,
        message.from_email@ == from_email@,
        message.to@ == account.email@,
        message.subject@ == first_line(rendered_subject@),
        message.body == rendered_body,
{
    let subject = match subject_line(rendered_subject) {
        Some(line) => line,
        None => String::new(),
    };
    Message {
        from_name: String::from_str(from_name),
        from_email: String::from_str(from_email),
        to: account.email.clone(),
        subject,
        body: rendered_body,
    }
}

} // verus!
