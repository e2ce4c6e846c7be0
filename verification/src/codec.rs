//! The message codec's decode side: normalizing a fetched payload's line
//! endings, and reading headers, bodies and MIME parts through the outside
//! RFC822 parser.
//!
//! Each trusted wrapper re-parses the raw bytes: the outside parse borrows
//! them, so no parsed value is held across calls. Every queried value is a
//! function of the bytes (and the query) alone, which is what the named
//! spec functions below record.

use vstd::prelude::*;
use vstd::string::*;
use mailparse::MailHeaderMap;
use crate::errors::MailError;
use crate::persist::names_of;
use crate::persist::pick_free;
use crate::persist::pick_free_name;
use crate::text::dec_digits;
use crate::text::last_of;
use crate::text::rfind_char;
use crate::text::trim_str;
use crate::text::trimmed_of;
use crate::text::u64_to_dec;

verus! {

/// One message's header summary, as delivered to the UI layer. A record
/// whose `uid` is empty is the terminal marker of a mailbox walk.
pub struct EmailMetadata {
    pub uid: String,
    pub from: String,
    pub to: String,
    pub subject: String,
    pub date: String,
}

/// One message's decoded detail: the inline body and the local filenames
/// under which its attachments are persisted.
pub struct EmailDetail {
    pub body: String,
    pub attachments: Vec<String>,
}

/// An instruction to persist decoded attachment bytes under a (collision
/// free) local filename.
pub struct FileWrite {
    pub name: String,
    pub data: Vec<u8>,
}

// ---- what the outside RFC822 parser returns, by name ----

/// Whether the outside RFC822 parser accepts `raw`.
pub uninterp spec fn mail_parses(raw: Seq<u8>) -> bool;

/// The decoded value of the first header named `key` (matched case
/// insensitively), or `None` when the header is absent.
pub uninterp spec fn header_of(raw: Seq<u8>, key: Seq<char>) -> Option<Seq<char>>;

/// The number of MIME subparts of the parsed message.
pub uninterp spec fn num_parts_of(raw: Seq<u8>) -> int;

/// The decoded text body of the whole message, `None` when decoding fails.
pub uninterp spec fn body_text_of(raw: Seq<u8>) -> Option<Seq<char>>;

/// The disposition of subpart `i`: a label (0 inline, 1 attachment,
/// 2 other) and the `filename` parameter when one is given.
pub uninterp spec fn part_disposition_of(raw: Seq<u8>, i: int) -> (int, Option<Seq<char>>);

/// The decoded raw bytes of subpart `i`, `None` when decoding fails.
pub uninterp spec fn part_raw_of(raw: Seq<u8>, i: int) -> Option<Seq<u8>>;

/// The decoded text of subpart `i`, `None` when decoding fails.
pub uninterp spec fn part_text_of(raw: Seq<u8>, i: int) -> Option<Seq<char>>;

/// How a MIME part is meant to be rendered.
#[derive(Clone, Copy, PartialEq, Eq, Structural, Debug)]
pub enum PartDisposition {
    Inline,
    Attachment,
    Other,
}

/// The label under which a disposition is named by the parser.
pub open spec fn disp_code(d: PartDisposition) -> int {
    match d {
        PartDisposition::Inline => 0,
        PartDisposition::Attachment => 1,
        PartDisposition::Other => 2,
    }
}

/// Relies on `mailparse::parse_mail`: whether the raw bytes parse; the
/// outcome depends on the bytes alone.
#[verifier::external_body]
pub(crate) fn mail_ok(raw: &Vec<u8>) -> (r: bool)
    ensures
        r == mail_parses(raw@),
{
    mailparse::parse_mail(raw).is_ok()
}

/// Relies on `mailparse::parse_mail` and `MailHeaderMap::get_first_value`:
/// the decoded value of the first header matching `key`; a function of the
/// bytes and the key alone.
#[verifier::external_body]
pub(crate) fn header_value(raw: &Vec<u8>, key: &str) -> (r: Option<String>)
    requires
        mail_parses(raw@),
    ensures
        r is Some <==> header_of(raw@, key@) is Some,
        r is Some ==> r->Some_0@ == header_of(raw@, key@)->Some_0,
{
    let parsed = mailparse::parse_mail(raw).unwrap();
    parsed.headers.get_first_value(key)
}

/// Relies on `mailparse::parse_mail`: the number of MIME subparts.
#[verifier::external_body]
pub(crate) fn subpart_count(raw: &Vec<u8>) -> (r: usize)
    requires
        mail_parses(raw@),
    ensures
        r as int == num_parts_of(raw@),
{
    mailparse::parse_mail(raw).unwrap().subparts.len()
}

/// Relies on `mailparse::ParsedMail::get_body`: the decoded text body of
/// the whole message, `None` when body decoding fails.
#[verifier::external_body]
pub(crate) fn whole_body_text(raw: &Vec<u8>) -> (r: Option<String>)
    requires
        mail_parses(raw@),
    ensures
        r is Some <==> body_text_of(raw@) is Some,
        r is Some ==> r->Some_0@ == body_text_of(raw@)->Some_0,
{
    mailparse::parse_mail(raw).unwrap().get_body().ok()
}

/// Relies on `mailparse::ParsedMail::get_content_disposition`: the
/// disposition label of subpart `i` and its `filename` parameter, both
/// functions of the bytes and the index alone.
#[verifier::external_body]
pub(crate) fn part_disposition(raw: &Vec<u8>, i: usize) -> (r: (PartDisposition, Option<String>))
    requires
        mail_parses(raw@),
        i < num_parts_of(raw@),
    ensures
        disp_code(r.0) == part_disposition_of(raw@, i as int).0,
        r.1 is Some <==> part_disposition_of(raw@, i as int).1 is Some,
        r.1 is Some ==> r.1->Some_0@ == part_disposition_of(raw@, i as int).1->Some_0,
{
    let parsed = mailparse::parse_mail(raw).unwrap();
    let d = parsed.subparts[i].get_content_disposition();
    let kind = match d.disposition {
        mailparse::DispositionType::Inline => PartDisposition::Inline,
        mailparse::DispositionType::Attachment => PartDisposition::Attachment,
        _ => PartDisposition::Other,
    };
    (kind, d.params.get("filename").cloned())
}

/// Relies on `mailparse::ParsedMail::get_body_raw`: the decoded bytes of
/// subpart `i`, `None` when decoding fails.
#[verifier::external_body]
pub(crate) fn part_body_raw(raw: &Vec<u8>, i: usize) -> (r: Option<Vec<u8>>)
    requires
        mail_parses(raw@),
        i < num_parts_of(raw@),
    ensures
        r is Some <==> part_raw_of(raw@, i as int) is Some,
        r is Some ==> r->Some_0@ == part_raw_of(raw@, i as int)->Some_0,
{
    mailparse::parse_mail(raw).unwrap().subparts[i].get_body_raw().ok()
}

/// Relies on `mailparse::ParsedMail::get_body`: the decoded text of
/// subpart `i`, `None` when decoding fails.
#[verifier::external_body]
pub(crate) fn part_body_text(raw: &Vec<u8>, i: usize) -> (r: Option<String>)
    requires
        mail_parses(raw@),
        i < num_parts_of(raw@),
    ensures
        r is Some <==> part_text_of(raw@, i as int) is Some,
        r is Some ==> r->Some_0@ == part_text_of(raw@, i as int)->Some_0,
{
    mailparse::parse_mail(raw).unwrap().subparts[i].get_body().ok()
}

// ---- line normalization of a fetched payload ----

/// Every CRLF pair collapsed to a single LF; all other bytes kept.
pub open spec fn collapse_crlf(s: Seq<u8>) -> Seq<u8>
    decreases s.len(),
{
    if s.len() == 0 {
        Seq::empty()
    } else if s.len() >= 2 && s[0] == 13 && s[1] == 10 {
        seq![10u8] + collapse_crlf(s.skip(2))
    } else {
        seq![s[0]] + collapse_crlf(s.skip(1))
    }
}

/// The line-normal form of a payload: CRLF collapsed to LF, and one final
/// newline (if any) dropped — what splitting into lines and rejoining with
/// LF produces.
pub open spec fn line_join(s: Seq<u8>) -> Seq<u8> {
    let t = collapse_crlf(s);
    if t.len() > 0 && t.last() == 10 {
        t.drop_last()
    } else {
        t
    }
}

/// Normalizes a fetched payload's line endings before parsing.
pub fn normalize_lines(raw: &Vec<u8>) -> (r: Vec<u8>)
    ensures
        r@ == line_join(raw@),
{
    let n = raw.len();
    let mut out: Vec<u8> = Vec::new();
    let mut i: usize = 0;
    proof {
        assert(raw@.skip(0) =~= raw@);
        assert(out@ + collapse_crlf(raw@) =~= collapse_crlf(raw@));
    }
    while i < n
        invariant
            i <= n,
            n == raw@.len(),
            collapse_crlf(raw@) == out@ + collapse_crlf(raw@.skip(i as int)),
        decreases n - i,
    {
        let b = raw[i];
        if b == 13 && i + 1 < n && raw[i + 1] == 10 {
            out.push(10);
            proof {
                assert(raw@.skip(i as int).skip(2) =~= raw@.skip(i as int + 2));
                assert(collapse_crlf(raw@.skip(i as int)) == seq![10u8] + collapse_crlf(
                    raw@.skip(i as int + 2),
                ));
                assert(collapse_crlf(raw@) =~= out@ + collapse_crlf(raw@.skip(i as int + 2)));
            }
            i = i + 2;
        } else {
            out.push(b);
            proof {
                assert(raw@.skip(i as int).skip(1) =~= raw@.skip(i as int + 1));
                assert(collapse_crlf(raw@.skip(i as int)) == seq![raw@[i as int]] + collapse_crlf(
                    raw@.skip(i as int + 1),
                ));
                assert(collapse_crlf(raw@) =~= out@ + collapse_crlf(raw@.skip(i as int + 1)));
            }
            i = i + 1;
        }
    }
    proof {
        assert(raw@.skip(n as int) =~= Seq::<u8>::empty());
        assert(out@ =~= collapse_crlf(raw@));
    }
    if out.len() > 0 {
        let last = out[out.len() - 1];
        if last == 10 {
            out.pop();
            proof {
                assert(out@ =~= collapse_crlf(raw@).drop_last());
            }
        }
    }
    out
}

// ---- header summaries ----

/// The value a summary field carries: the decoded header when present and
/// not blank, else the given fallback.
pub open spec fn header_field(raw: Seq<u8>, key: Seq<char>, fallback: Seq<char>) -> Seq<char> {
    match header_of(raw, key) {
        Some(v) => if trimmed_of(v).len() == 0 {
            fallback
        } else {
            v
        },
        None => fallback,
    }
}

/// Reads one summary field, substituting the fallback for an absent or
/// blank header.
pub(crate) fn get_header(raw: &Vec<u8>, key: &str, fallback: &str) -> (r: String)
    requires
        mail_parses(raw@),
    ensures
        r@ == header_field(raw@, key@, fallback@),
{
    match header_value(raw, key) {
        Some(v) => {
            let t = trim_str(v.as_str());
            if t.unicode_len() == 0 {
                fallback.to_owned()
            } else {
                v
            }
        },
        None => fallback.to_owned(),
    }
}

/// Decodes the header summary of one fetched message into a metadata
/// record carrying the given identifier; absent or blank headers fall back
/// to fixed placeholder strings.
pub fn decode_metadata(raw: &Vec<u8>, uid: String) -> (r: Result<EmailMetadata, MailError>)
    ensures
        match r {
            Ok(m) => {
                &&& mail_parses(line_join(raw@))
                &&& m.uid@ == uid@
                &&& m.from@ == header_field(line_join(raw@), "From"@, "[unknown sender]"@)
                &&& m.to@ == header_field(line_join(raw@), "To"@, "[unknown recipient]"@)
                &&& m.subject@ == header_field(line_join(raw@), "Subject"@, "[no subject]"@)
                &&& m.date@ == header_field(line_join(raw@), "Date"@, "[unknown date]"@)
            },
            Err(e) => e == MailError::ParseError && !mail_parses(line_join(raw@)),
        },
{
    let norm = normalize_lines(raw);
    if !mail_ok(&norm) {
        return Err(MailError::ParseError);
    }
    Ok(EmailMetadata {
        uid,
        from: get_header(&norm, "From", "[unknown sender]"),
        to: get_header(&norm, "To", "[unknown recipient]"),
        subject: get_header(&norm, "Subject", "[no subject]"),
        date: get_header(&norm, "Date", "[unknown date]"),
    })
}

// ---- decoding a full message into body, attachments and file writes ----

/// The final path component of a proposed attachment filename: what
/// follows the last `/`.
pub open spec fn base_name_of(s: Seq<char>) -> Seq<char> {
    s.skip(last_of(s, '/') + 1)
}

/// Keeps only the final path component of a filename.
pub(crate) fn base_name(s: &str) -> (r: String)
    ensures
        r@ == base_name_of(s@),
{
    let n = s.unicode_len();
    match rfind_char(s, '/') {
        Some(d) => {
            proof {
                crate::text::lemma_last_at_props(s@, '/', s@.len() - 1);
            }
            s.substring_char(d + 1, n).to_owned()
        },
        None => {
            proof {
                assert(s@.skip(0) =~= s@);
            }
            s.to_owned()
        },
    }
}

/// The fallback name given to an unnamed attachment part.
pub open spec fn fallback_name_of(i: int) -> Seq<char>
    recommends
        i >= 0,
{
    "attachment_"@ + dec_digits(i as nat)
}

/// Builds the fallback name of the unnamed attachment at part index `i`.
pub(crate) fn fallback_name(i: usize) -> (r: String)
    ensures
        r@ == fallback_name_of(i as int),
{
    let mut s = "attachment_".to_owned();
    s.append(u64_to_dec(i as u64).as_str());
    s
}

/// The filename under which attachment part `i` is persisted, before
/// collision resolution: the final path component of its `filename`
/// parameter, or the fallback name when the parameter is absent or names
/// no file.
pub open spec fn part_desired_name(raw: Seq<u8>, i: int) -> Seq<char> {
    match part_disposition_of(raw, i).1 {
        Some(f) => if base_name_of(f).len() == 0 {
            fallback_name_of(i)
        } else {
            base_name_of(f)
        },
        None => fallback_name_of(i),
    }
}

/// The whole-message body, with a placeholder when decoding fails.
pub open spec fn body_or_fallback(raw: Seq<u8>) -> Seq<char> {
    match body_text_of(raw) {
        Some(t) => t,
        None => "[body decode error]"@,
    }
}

/// The accumulated outcome of walking a message's MIME parts: the inline
/// body so far, the attachment names in order, the file writes they imply,
/// and every filename already spoken for.
#[verifier::ext_equal]
pub struct WalkState {
    pub body: Seq<char>,
    pub attachments: Seq<Seq<char>>,
    pub writes: Seq<(Seq<char>, Seq<u8>)>,
    pub taken: Set<Seq<char>>,
}

/// One step of the part walk: an attachment-disposed part contributes a
/// collision-free file write, an inline part appends to the body, any
/// other disposition is ignored. `None` when the part's payload cannot be
/// decoded.
pub open spec fn walk_step(raw: Seq<u8>, i: int, st: WalkState) -> Option<WalkState> {
    let code = part_disposition_of(raw, i).0;
    if code == 1 {
        match part_raw_of(raw, i) {
            Some(bytes) => {
                let chosen = pick_free(st.taken, part_desired_name(raw, i));
                Some(
                    WalkState {
                        body: st.body,
                        attachments: st.attachments.push(chosen),
                        writes: st.writes.push((chosen, bytes)),
                        taken: st.taken.insert(chosen),
                    },
                )
            },
            None => None,
        }
    } else if code == 0 {
        match part_text_of(raw, i) {
            Some(t) => Some(
                WalkState {
                    body: st.body + t,
                    attachments: st.attachments,
                    writes: st.writes,
                    taken: st.taken,
                },
            ),
            None => None,
        }
    } else {
        Some(st)
    }
}

/// The walk over the first `i` parts, starting from the names already
/// present in the target directory.
pub open spec fn walk_upto(raw: Seq<u8>, i: int, existing: Set<Seq<char>>) -> Option<WalkState>
    decreases i,
{
    if i <= 0 {
        Some(
            WalkState {
                body: Seq::empty(),
                attachments: Seq::empty(),
                writes: Seq::empty(),
                taken: existing,
            },
        )
    } else {
        match walk_upto(raw, i - 1, existing) {
            Some(st) => walk_step(raw, i - 1, st),
            None => None,
        }
    }
}

/// Copies a vector of names; the copy reads back equal.
pub(crate) fn copy_names(v: &Vec<String>) -> (r: Vec<String>)
    ensures
        r@ =~= v@,
{
    let n = v.len();
    let mut out: Vec<String> = Vec::new();
    let mut i: usize = 0;
    while i < n
        invariant
            i <= n,
            n == v@.len(),
            out@ =~= v@.take(i as int),
        decreases n - i,
    {
        out.push(v[i].clone());
        proof {
            assert(out@ =~= v@.take(i as int + 1));
        }
        i = i + 1;
    }
    proof {
        assert(v@.take(n as int) =~= v@);
    }
    out
}

/// Once a part fails to decode, the whole walk fails.
proof fn lemma_walk_none_sticks(raw: Seq<u8>, i: int, j: int, existing: Set<Seq<char>>)
    requires
        0 <= i <= j,
        walk_upto(raw, i, existing) is None,
    ensures
        walk_upto(raw, j, existing) is None,
    decreases j - i,
{
    if i < j {
        lemma_walk_none_sticks(raw, i, j - 1, existing);
    }
}

proof fn lemma_names_push(v: Seq<String>, s: String)
    ensures
        v.push(s).map_values(|t: String| t@) =~= v.map_values(|t: String| t@).push(s@),
        names_of(v.push(s)) == names_of(v).insert(s@),
{
    let m = v.map_values(|t: String| t@);
    let b = v.push(s).map_values(|t: String| t@);
    assert(b =~= m.push(s@));
    assert forall|t: Seq<char>| names_of(v.push(s)).contains(t) implies names_of(v).insert(
        s@,
    ).contains(t) by {
        let i = choose|i: int| 0 <= i < b.len() && b[i] == t;
        if i < m.len() {
            assert(m[i] == t);
        }
    }
    assert forall|t: Seq<char>| names_of(v).insert(s@).contains(t) implies names_of(
        v.push(s),
    ).contains(t) by {
        if t == s@ {
            assert(b[b.len() - 1] == t);
        } else {
            let i = choose|i: int| 0 <= i < m.len() && m[i] == t;
            assert(b[i] == t);
        }
    }
    assert(names_of(v.push(s)) =~= names_of(v).insert(s@));
}

/// Decodes a fetched full message: a message without subparts delivers its
/// whole decoded body; one with subparts delivers the inline parts
/// concatenated in order as the body and every attachment-disposed part as
/// a file write under a collision-free name. The body is trimmed. The
/// `existing` names are those already present in the target directory.
pub fn decode_detail(raw: &Vec<u8>, existing: &Vec<String>) -> (r: Result<
    (EmailDetail, Vec<FileWrite>),
    MailError,
>)
    ensures
        ({
            let norm = line_join(raw@);
            match r {
                Ok(p) => {
                    &&& mail_parses(norm)
                    &&& if num_parts_of(norm) == 0 {
                        &&& p.0.body@ == trimmed_of(body_or_fallback(norm))
                        &&& p.0.attachments@.len() == 0
                        &&& p.1@.len() == 0
                    } else {
                        &&& walk_upto(norm, num_parts_of(norm), names_of(existing@)) is Some
                        &&& p.0.body@ == trimmed_of(
                            walk_upto(norm, num_parts_of(norm), names_of(existing@))->Some_0.body,
                        )
                        &&& p.0.attachments@.map_values(|t: String| t@) == walk_upto(
                            norm,
                            num_parts_of(norm),
                            names_of(existing@),
                        )->Some_0.attachments
                        &&& p.1@.map_values(|w: FileWrite| (w.name@, w.data@)) == walk_upto(
                            norm,
                            num_parts_of(norm),
                            names_of(existing@),
                        )->Some_0.writes
                    }
                },
                Err(e) => {
                    &&& e == MailError::ParseError
                    &&& !mail_parses(norm) || (num_parts_of(norm) > 0 && walk_upto(
                        norm,
                        num_parts_of(norm),
                        names_of(existing@),
                    ) is None)
                },
            }
        }),
{
    let norm = normalize_lines(raw);
    if !mail_ok(&norm) {
        return Err(MailError::ParseError);
    }
    let n = subpart_count(&norm);
    if n == 0 {
        let body = match whole_body_text(&norm) {
            Some(t) => t,
            None => "[body decode error]".to_owned(),
        };
        let trimmed = trim_str(body.as_str());
        return Ok((EmailDetail { body: trimmed, attachments: Vec::new() }, Vec::new()));
    }
    let mut body = String::new();
    let mut attachments: Vec<String> = Vec::new();
    let mut writes: Vec<FileWrite> = Vec::new();
    let mut taken = copy_names(existing);
    let mut i: usize = 0;
    while i < n
        invariant
            i <= n,
            norm@ == line_join(raw@),
            mail_parses(norm@),
            n as int == num_parts_of(norm@),
            walk_upto(norm@, i as int, names_of(existing@)) is Some,
            walk_upto(norm@, i as int, names_of(existing@))->Some_0.body == body@,
            walk_upto(norm@, i as int, names_of(existing@))->Some_0.attachments
                == attachments@.map_values(|t: String| t@),
            walk_upto(norm@, i as int, names_of(existing@))->Some_0.writes
                == writes@.map_values(|w: FileWrite| (w.name@, w.data@)),
            walk_upto(norm@, i as int, names_of(existing@))->Some_0.taken == names_of(taken@),
        decreases n - i,
    {
        let ghost st = walk_upto(norm@, i as int, names_of(existing@))->Some_0;
        let (disp, fname) = part_disposition(&norm, i);
        match disp {
            PartDisposition::Attachment => {
                let desired = match fname {
                    Some(f) => {
                        let b = base_name(f.as_str());
                        if b.as_str().unicode_len() == 0 {
                            fallback_name(i)
                        } else {
                            b
                        }
                    },
                    None => fallback_name(i),
                };
                proof {
                    assert(desired@ == part_desired_name(norm@, i as int));
                }
                let content = match part_body_raw(&norm, i) {
                    Some(c) => c,
                    None => {
                        proof {
                            assert(walk_upto(norm@, i as int + 1, names_of(existing@)) is None);
                            lemma_walk_none_sticks(
                                norm@,
                                i as int + 1,
                                n as int,
                                names_of(existing@),
                            );
                        }
                        return Err(MailError::ParseError);
                    },
                };
                let chosen = pick_free_name(&taken, &desired);
                let ghost chosen_spec = chosen@;
                let ghost atts0 = attachments@;
                let ghost writes0 = writes@;
                let ghost taken0 = taken@;
                let ghost content0 = content@;
                let chosen2 = chosen.clone();
                let chosen3 = chosen.clone();
                attachments.push(chosen2);
                writes.push(FileWrite { name: chosen3, data: content });
                taken.push(chosen);
                proof {
                    assert(chosen_spec == pick_free(
                        st.taken,
                        part_desired_name(norm@, i as int),
                    ));
                    lemma_names_push(taken0, taken@.last());
                    assert(taken0.push(taken@.last()) == taken@);
                    assert(names_of(taken@) == st.taken.insert(chosen_spec));
                    assert(attachments@.map_values(|t: String| t@) =~= atts0.map_values(
                        |t: String| t@,
                    ).push(chosen_spec));
                    assert(writes@.map_values(|w: FileWrite| (w.name@, w.data@)) =~=
                        writes0.map_values(|w: FileWrite| (w.name@, w.data@)).push(
                        (chosen_spec, content0),
                    ));
                }
            },
            PartDisposition::Inline => {
                let t = match part_body_text(&norm, i) {
                    Some(t) => t,
                    None => {
                        proof {
                            assert(walk_upto(norm@, i as int + 1, names_of(existing@)) is None);
                            lemma_walk_none_sticks(
                                norm@,
                                i as int + 1,
                                n as int,
                                names_of(existing@),
                            );
                        }
                        return Err(MailError::ParseError);
                    },
                };
                body.append(t.as_str());
            },
            PartDisposition::Other => {},
        }
        proof {
            assert(walk_upto(norm@, i as int + 1, names_of(existing@)) == walk_step(
                norm@,
                i as int,
                st,
            ));
        }
        i = i + 1;
    }
    let trimmed = trim_str(body.as_str());
    Ok((EmailDetail { body: trimmed, attachments }, writes))
}

} // verus!
