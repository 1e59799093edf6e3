//! Messages and mailboxes: a message's body, the headers of the messages of a
//! mailbox, and the titles of the mailboxes. Parsing a message is left to
//! `mailparse`; what is read from the parsed fields is decided here.
use vstd::prelude::*;

use crate::cfg::opt_view;
use crate::text::{eq_ignore_ascii_case, eq_ignore_case};

verus! {

/// What `mailparse` makes of the raw message `raw`: `parse_mail`, then
/// `ParsedMail::get_body` on its result; `None` where either fails.
pub uninterp spec fn mail_body(raw: Seq<u8>) -> Option<Seq<char>>;

/// What `mailparse::parse_headers` makes of `raw`: the name (`get_key`) and
/// value (`get_value`) of each header, in order; `None` where it fails.
pub uninterp spec fn header_fields(raw: Seq<u8>) -> Option<Seq<(Seq<char>, Seq<char>)>>;

/// The body of the message `raw`, decoded, through `mailparse::parse_mail`
/// and `ParsedMail::get_body`. Its result is `mail_body(raw)`.
#[verifier::external_body]
fn parse_mail_body(raw: &[u8]) -> (r: Option<String>)
    ensures
        opt_view(r) == mail_body(raw@),
{
    match mailparse::parse_mail(raw) {
        Ok(mail) => mail.get_body().ok(),
        Err(_) => None,
    }
}

/// The headers at the start of `raw`, as (name, value) pairs in order,
/// through `mailparse::parse_headers`, `MailHeader::get_key` and
/// `MailHeader::get_value`. Its result is `header_fields(raw)`.
#[verifier::external_body]
fn parse_header_fields(raw: &[u8]) -> (r: Option<Vec<(String, String)>>)
    ensures
        fields_view(r) == header_fields(raw@),
{
    match mailparse::parse_headers(raw) {
        Ok((headers, _)) => {
            let mut fields = Vec::new();
            for h in headers.iter() {
                fields.push((h.get_key(), h.get_value()));
            }
            Some(fields)
        },
        Err(_) => None,
    }
}

/// The view of a list of (name, value) pairs.
pub open spec fn pairs_view(v: Seq<(String, String)>) -> Seq<(Seq<char>, Seq<char>)> {
    v.map_values(|p: (String, String)| (p.0@, p.1@))
}

/// The view of an optional list of (name, value) pairs.
pub open spec fn fields_view(o: Option<Vec<(String, String)>>) -> Option<Seq<(Seq<char>, Seq<char>)>> {
    match o {
        Some(v) => Some(pairs_view(v@)),
        None => None,
    }
}

/// The value of the first header of `fields` whose name is `key` up to the
/// case of ASCII letters (`MailHeaderMap::get_first_value`).
pub open spec fn first_value(fields: Seq<(Seq<char>, Seq<char>)>, key: Seq<char>) -> Option<Seq<char>>
    decreases fields.len(),
{
    if fields.len() == 0 {
        None
    } else if eq_ignore_ascii_case(fields[0].0, key) {
        Some(fields[0].1)
    } else {
        first_value(fields.drop_first(), key)
    }
}

proof fn lemma_first_value(fields: Seq<(Seq<char>, Seq<char>)>, key: Seq<char>, i: int)
    requires
        0 <= i <= fields.len(),
        forall|j: int| 0 <= j < i ==> !eq_ignore_ascii_case(#[trigger] fields[j].0, key),
    ensures
        first_value(fields, key) == first_value(fields.subrange(i, fields.len() as int), key),
    decreases i,
{
    if i > 0 {
        let t = fields.drop_first();
        assert forall|j: int| 0 <= j < i - 1 implies !eq_ignore_ascii_case(#[trigger] t[j].0, key) by {
            assert(t[j] == fields[j + 1]);
        }
        lemma_first_value(t, key, i - 1);
        assert(t.subrange(i - 1, t.len() as int) =~= fields.subrange(i, fields.len() as int));
    } else {
        assert(fields.subrange(0, fields.len() as int) =~= fields);
    }
}

/// The first header whose name matches the key is found, wherever it stands.
pub proof fn law_first_value_finds_first_match(
    fields: Seq<(Seq<char>, Seq<char>)>,
    key: Seq<char>,
    j: int,
)
    requires
        0 <= j < fields.len(),
        eq_ignore_ascii_case(fields[j].0, key),
        forall|i: int| 0 <= i < j ==> !eq_ignore_ascii_case(#[trigger] fields[i].0, key),
    ensures
        first_value(fields, key) == Some(fields[j].1),
{
    lemma_first_value(fields, key, j);
    let t = fields.subrange(j, fields.len() as int);
    assert(t[0] == fields[j]);
}

/// No value is found exactly when no header's name matches the key.
pub proof fn law_first_value_none(fields: Seq<(Seq<char>, Seq<char>)>, key: Seq<char>)
    ensures
        first_value(fields, key) is None <==> forall|j: int|
            0 <= j < fields.len() ==> !eq_ignore_ascii_case(#[trigger] fields[j].0, key),
    decreases fields.len(),
{
    if fields.len() > 0 {
        let t = fields.drop_first();
        law_first_value_none(t, key);
        if !eq_ignore_ascii_case(fields[0].0, key) {
            assert forall|j: int| 0 <= j < t.len() implies t[j] == fields[j + 1] by {}
            if first_value(fields, key) is None {
                assert forall|j: int| 0 <= j < fields.len() implies !eq_ignore_ascii_case(#[trigger] fields[j].0, key) by {
                    if j > 0 {
                        assert(t[j - 1] == fields[j]);
                    }
                }
            } else {
                let j = choose|j: int| 0 <= j < t.len() && eq_ignore_ascii_case(#[trigger] t[j].0, key);
                assert(fields[j + 1] == t[j]);
            }
        }
    }
}

/// The value of the first header of `fields` named `key`, ASCII letters
/// compared without case (see `first_value`).
pub fn get_first_value(fields: &Vec<(String, String)>, key: &str) -> (r: Option<String>)
    ensures
        opt_view(r) == first_value(pairs_view(fields@), key@),
        r matches Some(v) ==> exists|j: int|
            0 <= j < fields@.len() && eq_ignore_ascii_case(#[trigger] fields@[j].0@, key@) && v@
                == fields@[j].1@ && forall|i: int|
                0 <= i < j ==> !eq_ignore_ascii_case(#[trigger] fields@[i].0@, key@),
        r is None ==> forall|j: int|
            0 <= j < fields@.len() ==> !eq_ignore_ascii_case(#[trigger] fields@[j].0@, key@),
{
    let ghost fv = pairs_view(fields@);
    let n = fields.len();
    for i in 0..n
        invariant
            n == fields@.len(),
            fv == pairs_view(fields@),
            forall|j: int| 0 <= j < i ==> !eq_ignore_ascii_case(#[trigger] fv[j].0, key@),
    {
        if eq_ignore_case(fields[i].0.as_str(), key) {
            proof {
                lemma_first_value(fv, key@, i as int);
                assert forall|k: int| 0 <= k < i implies !eq_ignore_ascii_case(#[trigger] fields@[k].0@, key@) by {
                    assert(fv[k].0 == fields@[k].0@);
                }
                assert(fv[i as int].0 == fields@[i as int].0@);
            }
            return Some(fields[i].1.clone());
        }
    }
    proof {
        lemma_first_value(fv, key@, n as int);
        assert forall|k: int| 0 <= k < n implies !eq_ignore_ascii_case(#[trigger] fields@[k].0@, key@) by {
            assert(fv[k].0 == fields@[k].0@);
        }
    }
    None
}

/// A message.
#[derive(Debug)]
pub struct Email {
    body: String,
}

impl View for Email {
    type V = Seq<char>;

    /// The message's body.
    closed spec fn view(&self) -> Seq<char> {
        self.body@
    }
}

impl Email {
    /// The message `email`, raw as the server sends it. Parsing must succeed.
    pub fn new(email: &[u8]) -> (r: Email)
        requires
            mail_body(email@) is Some,
        ensures
            r@ == mail_body(email@).unwrap(),
    {
        match Email::try_new(email) {
            Some(m) => m,
            None => Email { body: String::new() },
        }
    }

    /// The message `email`, or `None` where it cannot be parsed.
    pub fn try_new(email: &[u8]) -> (r: Option<Email>)
        ensures
            r is Some <==> mail_body(email@) is Some,
            r matches Some(m) ==> m@ == mail_body(email@).unwrap(),
    {
        match parse_mail_body(email) {
            Some(body) => Some(Email { body }),
            None => None,
        }
    }

    /// The message's body.
    pub fn body(&self) -> (r: &String)
        ensures
            r@ == self@,
    {
        &self.body
    }
}

/// What an entry of a mailbox's list of messages holds.
pub struct EmailHeaderView {
    pub mailbox: Seq<char>,
    pub index: usize,
    pub subject: Seq<char>,
}

/// The subject that a message with header fields `fields` is listed under:
/// the value of its `Subject` header, or a note that it could not be read.
pub open spec fn subject_of(fields: Seq<(Seq<char>, Seq<char>)>) -> Seq<char> {
    match first_value(fields, "Subject"@) {
        Some(v) => v,
        None => "Failed to read subject"@,
    }
}

/// An entry of a mailbox's list of messages: the message at position
/// `index` (counted from 1) of mailbox `mailbox`, with its subject.
#[derive(Debug)]
pub struct EmailHeader {
    mailbox: String,
    index: usize,
    subject: String,
}

impl View for EmailHeader {
    type V = EmailHeaderView;

    closed spec fn view(&self) -> EmailHeaderView {
        EmailHeaderView { mailbox: self.mailbox@, index: self.index, subject: self.subject@ }
    }
}

impl Clone for EmailHeader {
    fn clone(&self) -> (r: Self)
        ensures
            r@ == self@,
    {
        EmailHeader { mailbox: self.mailbox.clone(), index: self.index, subject: self.subject.clone() }
    }
}

impl EmailHeader {
    /// The entry for the message at `index` of `mailbox` whose header
    /// fields are `fields`.
    pub fn from_fields(mailbox: &str, index: usize, fields: &Vec<(String, String)>) -> (r: EmailHeader)
        ensures
            r@ == (EmailHeaderView {
                mailbox: mailbox@,
                index,
                subject: subject_of(pairs_view(fields@)),
            }),
    {
        let subject = match get_first_value(fields, "Subject") {
            Some(v) => v,
            None => "Failed to read subject".to_owned(),
        };
        EmailHeader { mailbox: mailbox.to_owned(), index, subject }
    }

    /// The entry for the message at `index` of `mailbox` whose raw header
    /// is `header`. Parsing the header must succeed.
    pub fn new(mailbox: &str, index: usize, header: &[u8]) -> (r: EmailHeader)
        requires
            header_fields(header@) is Some,
        ensures
            r@ == (EmailHeaderView {
                mailbox: mailbox@,
                index,
                subject: subject_of(header_fields(header@).unwrap()),
            }),
    {
        match EmailHeader::try_new(mailbox, index, header) {
            Some(h) => h,
            None => EmailHeader { mailbox: mailbox.to_owned(), index, subject: String::new() },
        }
    }

    /// The entry as `new` makes it, or `None` where the header cannot be
    /// parsed.
    pub fn try_new(mailbox: &str, index: usize, header: &[u8]) -> (r: Option<EmailHeader>)
        ensures
            r is Some <==> header_fields(header@) is Some,
            r matches Some(h) ==> h@ == (EmailHeaderView {
                mailbox: mailbox@,
                index,
                subject: subject_of(header_fields(header@).unwrap()),
            }),
    {
        match parse_header_fields(header) {
            Some(fields) => Some(EmailHeader::from_fields(mailbox, index, &fields)),
            None => None,
        }
    }

    /// The mailbox that holds the message.
    pub fn mailbox(&self) -> (r: &String)
        ensures
            r@ == self@.mailbox,
    {
        &self.mailbox
    }

    /// The message's position in its mailbox, counted from 1.
    pub fn index(&self) -> (r: usize)
        ensures
            r == self@.index,
    {
        self.index
    }

    /// The message's subject.
    pub fn subject(&self) -> (r: &String)
        ensures
            r@ == self@.subject,
    {
        &self.subject
    }
}

/// The entry that a mailbox named `name` lists for the message at position
/// `i` (counted from 0) of `headers`: it is numbered `i + 1`.
pub open spec fn listed_header(name: Seq<char>, headers: Seq<&[u8]>, i: int) -> EmailHeaderView {
    EmailHeaderView {
        mailbox: name,
        index: (i + 1) as usize,
        subject: subject_of(header_fields(headers[i]@).unwrap()),
    }
}

/// Every raw header of `headers` can be parsed.
pub open spec fn all_parse(headers: Seq<&[u8]>) -> bool {
    forall|i: int| 0 <= i < headers.len() ==> (#[trigger] header_fields(headers[i]@)) is Some
}

/// A mailbox with the list of its messages.
pub struct Mailbox {
    name: String,
    mails: Vec<EmailHeader>,
}

impl Mailbox {
    /// The mailbox's name.
    pub closed spec fn name_view(self) -> Seq<char> {
        self.name@
    }

    /// The entries of the mailbox's list, in order.
    pub closed spec fn mails_view(self) -> Seq<EmailHeaderView> {
        self.mails@.map_values(|h: EmailHeader| h@)
    }

    /// The mailbox `name` whose messages have the raw headers `headers`, in
    /// order; the message at position `i` is numbered `i + 1`. Every header
    /// must parse.
    pub fn new(name: &str, headers: Vec<&[u8]>) -> (r: Mailbox)
        requires
            all_parse(headers@),
        ensures
            r.name_view() == name@,
            r.mails_view().len() == headers@.len(),
            forall|i: int| 0 <= i < headers@.len() ==> #[trigger] r.mails_view()[i] == listed_header(name@, headers@, i),
    {
        match Mailbox::try_new(name, headers) {
            Some(m) => m,
            None => Mailbox { name: name.to_owned(), mails: Vec::new() },
        }
    }

    /// The mailbox as `new` makes it, or `None` where some header cannot be
    /// parsed.
    pub fn try_new(name: &str, headers: Vec<&[u8]>) -> (r: Option<Mailbox>)
        ensures
            r is Some <==> all_parse(headers@),
            r matches Some(m) ==> {
                &&& m.name_view() == name@
                &&& m.mails_view().len() == headers@.len()
                &&& forall|i: int| 0 <= i < headers@.len() ==> #[trigger] m.mails_view()[i] == listed_header(name@, headers@, i)
            },
    {
        let mut mails: Vec<EmailHeader> = Vec::new();
        let n = headers.len();
        for index in 0..n
            invariant
                n == headers@.len(),
                mails@.len() == index,
                forall|i: int| 0 <= i < index ==> (#[trigger] header_fields(headers@[i]@)) is Some,
                forall|i: int| 0 <= i < index ==> #[trigger] mails@[i]@ == listed_header(name@, headers@, i),
        {
            match EmailHeader::try_new(name, index + 1, headers[index]) {
                Some(h) => mails.push(h),
                None => return None,
            }
        }
        let m = Mailbox { name: name.to_owned(), mails };
        assert(m.mails_view().len() == headers@.len());
        Some(m)
    }

    /// The entries of the mailbox's list, in order.
    pub fn get_emails(&self) -> (r: Vec<EmailHeader>)
        ensures
            r@.map_values(|h: EmailHeader| h@) == self.mails_view(),
    {
        let n = self.mails.len();
        let mut r: Vec<EmailHeader> = Vec::new();
        for i in 0..n
            invariant
                n == self.mails@.len(),
                r@.len() == i,
                forall|j: int| 0 <= j < i ==> #[trigger] r@[j]@ == self.mails@[j]@,
        {
            r.push(self.mails[i].clone());
        }
        assert(r@.map_values(|h: EmailHeader| h@) =~= self.mails_view());
        r
    }

    /// The mailbox's name.
    pub fn name(&self) -> (r: &String)
        ensures
            r@ == self.name_view(),
    {
        &self.name
    }
}

/// The title under which a mailbox is listed.
pub struct MailboxTitle {
    title: String,
}

impl View for MailboxTitle {
    type V = Seq<char>;

    closed spec fn view(&self) -> Seq<char> {
        self.title@
    }
}

impl MailboxTitle {
    /// The entry for the mailbox named `title`.
    pub fn new(title: &str) -> (r: Self)
        ensures
            r@ == title@,
    {
        MailboxTitle { title: title.to_owned() }
    }

    /// The mailbox's name.
    pub fn title(&self) -> (r: &String)
        ensures
            r@ == self@,
    {
        &self.title
    }
}

} // verus!
