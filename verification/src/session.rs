//! The session controller: a state machine owning the user, the model of
//! the two transport handles, the per-mailbox cursors and the detail
//! cache. The outer layer performs the network and file work it is
//! instructed to do and feeds each outcome back in; every decision —
//! what to connect, what to fetch next, what to cache, what to write —
//! is made here.

use vstd::prelude::*;
use vstd::string::*;
use crate::address::addr_domain;
use crate::address::addr_valid;
use crate::address::parse_addr_domain;
use crate::address::supported_domain;
use crate::address::user_wf;
use crate::address::User;
use crate::codec::body_or_fallback;
use crate::codec::decode_detail;
use crate::codec::decode_metadata;
use crate::codec::header_field;
use crate::codec::line_join;
use crate::codec::mail_parses;
use crate::codec::num_parts_of;
use crate::codec::walk_upto;
use crate::codec::EmailDetail;
use crate::codec::EmailMetadata;
use crate::codec::FileWrite;
use crate::compose::build_message;
use crate::compose::ct_parses;
use crate::compose::mime_of;
use crate::compose::msg_from_of;
use crate::compose::msg_parts_of;
use crate::compose::msg_subject_of;
use crate::compose::msg_text_of;
use crate::compose::msg_to_of;
use crate::compose::requested_parts;
use crate::compose::AttachmentSource;
use crate::errors::MailError;
use crate::persist::names_of;
use crate::store::detail_view;
use crate::store::duplicate_detail;
use crate::store::CursorMap;
use crate::store::DetailCache;
use crate::text::dec_digits;
use crate::text::has_char;
use crate::text::contains_char;
use crate::text::lemma_dec_digits_injective;
use crate::text::make_uid;
use crate::text::parse_uid;
use crate::text::trimmed_of;
use crate::text::uid_chars;
use crate::text::uid_parse;
use vstd::pervasive::unreached;

verus! {

/// Where the session stands.
#[derive(Clone, Copy, PartialEq, Eq, Structural, Debug)]
pub enum SessionState {
    /// No session; only a login is accepted.
    LoggedOut,
    /// A user was built; the outer layer is opening the SMTP connection.
    AwaitSmtp,
    /// SMTP is open and tested; the outer layer is opening IMAP.
    AwaitImap,
    /// Both handles are open; actions are accepted.
    Active,
}

/// The instruction to open the session's connections.
pub struct ConnectPlan {
    pub smtp_host: String,
    pub imap_host: String,
    pub email_addr: String,
    pub password: String,
}

/// One step of a mailbox walk.
pub enum PageStep {
    /// One more message: its metadata, and the position to fetch next.
    Item { meta: EmailMetadata, next_seq: usize },
    /// End of mailbox: the terminal marker to deliver.
    End { terminal: EmailMetadata },
}

/// How a detail request is served.
pub enum DetailPlan {
    /// Cache hit: the record, returned verbatim; no network traffic.
    Cached { detail: EmailDetail },
    /// Cache miss: select `mailbox` and fetch the full message at `seq`.
    Fetch { mailbox: String, seq: usize },
}

/// The outcome of a completed detail fetch: the record to deliver and the
/// attachment writes to perform.
pub struct DetailResult {
    pub detail: EmailDetail,
    pub writes: Vec<FileWrite>,
}

/// The session controller.
pub struct Controller {
    pub state: SessionState,
    pub user: Option<User>,
    /// Whether the outer layer holds an open SMTP handle on the
    /// controller's instruction.
    pub smtp_open: bool,
    /// Whether the outer layer holds an open IMAP handle on the
    /// controller's instruction.
    pub imap_open: bool,
    /// The per-mailbox cursors of the pager.
    pub cursors: CursorMap,
    /// The session's detail cache.
    pub cache: DetailCache,
    /// The mailbox currently being walked, if any.
    pub paging: Option<String>,
    /// The identifier of the detail fetch in flight, if any.
    pub pending_detail: Option<String>,
}

impl Controller {
    /// The per-mailbox cursor map.
    pub closed spec fn cursors_map(&self) -> Map<Seq<char>, usize> {
        self.cursors@
    }

    /// The detail cache.
    pub closed spec fn cache_map(&self) -> Map<Seq<char>, EmailDetail> {
        self.cache@
    }

    /// The mailbox currently being walked, if any.
    pub closed spec fn paging_mailbox(&self) -> Option<Seq<char>> {
        match self.paging {
            Some(ref m) => Some(m@),
            None => None,
        }
    }

    /// The identifier of the detail fetch in flight, if any.
    pub closed spec fn pending_uid(&self) -> Option<Seq<char>> {
        match self.pending_detail {
            Some(ref u) => Some(u@),
            None => None,
        }
    }

    /// The controller's invariant: handles exist exactly as the state
    /// says, the stored user is well formed, walks and pending fetches
    /// only exist while active, a walked mailbox has a cursor, and a
    /// pending identifier is not yet cached.
    pub closed spec fn wf(&self) -> bool {
        &&& self.cursors.wf()
        &&& self.cache.wf()
        &&& match self.state {
            SessionState::LoggedOut => !self.smtp_open && !self.imap_open && self.user is None,
            SessionState::AwaitSmtp => self.user is Some && user_wf(self.user->Some_0)
                && !self.smtp_open && !self.imap_open,
            SessionState::AwaitImap => self.user is Some && user_wf(self.user->Some_0)
                && self.smtp_open && !self.imap_open,
            SessionState::Active => self.user is Some && user_wf(self.user->Some_0)
                && self.smtp_open && self.imap_open,
        }
        &&& (self.paging is Some ==> self.state is Active && self.cursors@.contains_key(
            self.paging->Some_0@,
        ))
        &&& (self.pending_detail is Some ==> self.state is Active && !self.cache@.contains_key(
            self.pending_detail->Some_0@,
        ))
    }

    /// A fresh controller: logged out, no handles, empty stores.
    pub fn new() -> (r: Controller)
        ensures
            r.wf(),
            r.state is LoggedOut,
            !r.smtp_open,
            !r.imap_open,
            r.cursors_map() == Map::<Seq<char>, usize>::empty(),
            r.cache_map() == Map::<Seq<char>, EmailDetail>::empty(),
    {
        Controller {
            state: SessionState::LoggedOut,
            user: None,
            smtp_open: false,
            imap_open: false,
            cursors: CursorMap::new(),
            cache: DetailCache::new(),
            paging: None,
            pending_detail: None,
        }
    }

    /// Begins a login: builds the user from the raw address and password
    /// and instructs the outer layer what to connect. On failure nothing
    /// changes — in particular no handle is, or will be, opened.
    pub fn login_begin(&mut self, email: &str, password: String) -> (r: Result<
        ConnectPlan,
        MailError,
    >)
        requires
            old(self).wf(),
            old(self).state is LoggedOut,
        ensures
            final(self).wf(),
            match r {
                Ok(plan) => {
                    &&& addr_valid(trimmed_of(email@))
                    &&& supported_domain(addr_domain(trimmed_of(email@)))
                    &&& plan.smtp_host@ == "smtp."@ + addr_domain(trimmed_of(email@))
                    &&& plan.imap_host@ == "imap."@ + addr_domain(trimmed_of(email@))
                    &&& plan.email_addr@ == trimmed_of(email@)
                    &&& plan.password@ == password@
                    &&& final(self).state is AwaitSmtp
                    &&& !final(self).smtp_open
                    &&& !final(self).imap_open
                    &&& final(self).user is Some
                    &&& final(self).user->Some_0.email_addr@ == trimmed_of(email@)
                },
                Err(e) => {
                    &&& *final(self) == *old(self)
                    &&& final(self).state is LoggedOut
                    &&& !final(self).smtp_open
                    &&& !final(self).imap_open
                    &&& ((e == MailError::InvalidAddress && !addr_valid(trimmed_of(email@))) || (e
                        == MailError::UnsupportedDomain && addr_valid(trimmed_of(email@))
                        && !supported_domain(addr_domain(trimmed_of(email@)))))
                },
            },
    {
        match User::build(email, password) {
            Err(e) => Err(e),
            Ok(u) => {
                let plan = ConnectPlan {
                    smtp_host: u.smtp_domain.clone(),
                    imap_host: u.imap_domain.clone(),
                    email_addr: u.email_addr.clone(),
                    password: u.password.clone(),
                };
                self.user = Some(u);
                self.state = SessionState::AwaitSmtp;
                Ok(plan)
            },
        }
    }

    /// Records the outcome of opening and testing the SMTP connection.
    pub fn smtp_connected(&mut self, ok: bool) -> (r: Result<(), MailError>)
        requires
            old(self).wf(),
            old(self).state is AwaitSmtp,
        ensures
            final(self).wf(),
            ok ==> r is Ok && final(self).state is AwaitImap && final(self).smtp_open && !final(self).imap_open && final(self).user == old(self).user,
            !ok ==> r == Result::<(), MailError>::Err(MailError::SmtpConnectError) && final(self).state is LoggedOut && !final(self).smtp_open && !final(self).imap_open && final(self).user is None,
    {
        if ok {
            self.smtp_open = true;
            self.state = SessionState::AwaitImap;
            Ok(())
        } else {
            self.user = None;
            self.state = SessionState::LoggedOut;
            Err(MailError::SmtpConnectError)
        }
    }

    /// Records the outcome of the IMAP connect and login. On success the
    /// session becomes active with fresh cursors and an empty cache; on
    /// failure the SMTP handle opened before this step must be closed —
    /// the second component says so.
    pub fn imap_connected(&mut self, ok: bool) -> (r: (Result<(), MailError>, bool))
        requires
            old(self).wf(),
            old(self).state is AwaitImap,
        ensures
            final(self).wf(),
            r.1 == !ok,
            ok ==> r.0 is Ok && final(self).state is Active && final(self).smtp_open && final(self).imap_open && final(self).user == old(self).user && final(self).cursors_map()
                == Map::<Seq<char>, usize>::empty() && final(self).cache_map() == Map::<
                Seq<char>,
                EmailDetail,
            >::empty() && final(self).paging_mailbox() is None && final(self).pending_uid() is None,
            !ok ==> r.0 == Result::<(), MailError>::Err(MailError::ImapConnectError) && final(self).state is LoggedOut && !final(self).smtp_open && !final(self).imap_open && final(self).user is None,
    {
        if ok {
            self.imap_open = true;
            self.state = SessionState::Active;
            self.cursors = CursorMap::new();
            self.cache = DetailCache::new();
            self.paging = None;
            self.pending_detail = None;
            (Ok(()), false)
        } else {
            self.user = None;
            self.smtp_open = false;
            self.state = SessionState::LoggedOut;
            (Err(MailError::ImapConnectError), true)
        }
    }

    /// Logs out. The second component instructs the outer layer to send a
    /// best-effort IMAP `LOGOUT`, whose failure is never surfaced: local
    /// state is torn down regardless, so an active session's logout
    /// always succeeds. In any other state the action is a precondition
    /// violation.
    pub fn logout(&mut self) -> (r: (Result<(), MailError>, bool))
        requires
            old(self).wf(),
        ensures
            final(self).wf(),
            old(self).state is Active ==> {
                &&& r.0 is Ok
                &&& r.1
                &&& final(self).state is LoggedOut
                &&& !final(self).smtp_open
                &&& !final(self).imap_open
                &&& final(self).user is None
                &&& final(self).cursors_map() == Map::<Seq<char>, usize>::empty()
                &&& final(self).cache_map() == Map::<Seq<char>, EmailDetail>::empty()
            },
            !(old(self).state is Active) ==> r.0 == Result::<(), MailError>::Err(
                MailError::NoActiveSession,
            ) && !r.1 && *final(self) == *old(self),
    {
        match self.state {
            SessionState::Active => {
                self.state = SessionState::LoggedOut;
                self.user = None;
                self.smtp_open = false;
                self.imap_open = false;
                self.cursors = CursorMap::new();
                self.cache = DetailCache::new();
                self.paging = None;
                self.pending_detail = None;
                (Ok(()), true)
            },
            _ => (Err(MailError::NoActiveSession), false),
        }
    }

    /// Serves a mailbox listing: keeps the names in order, dropping every
    /// name that carries the modified-UTF-7 escape marker `&` — such
    /// mailboxes are deliberately excluded from the listing.
    pub fn list_mailboxes(&self, names: Vec<String>) -> (r: Result<Vec<String>, MailError>)
        requires
            self.wf(),
        ensures
            match r {
                Ok(kept) => self.state is Active && kept@.map_values(|s: String| s@)
                    == names@.map_values(|s: String| s@).filter(|t: Seq<char>| !has_char(t, '&')),
                Err(e) => e == MailError::NoActiveSession && !(self.state is Active),
            },
    {
        match self.state {
            SessionState::Active => {
                let n = names.len();
                let mut kept: Vec<String> = Vec::new();
                let mut i: usize = 0;
                proof {
                    reveal(Seq::filter);
                    assert(names@.take(0).map_values(|s: String| s@) =~= Seq::<Seq<char>>::empty());
                    assert(kept@.map_values(|s: String| s@) =~= Seq::<Seq<char>>::empty());
                }
                while i < n
                    invariant
                        i <= n,
                        n == names@.len(),
                        kept@.map_values(|s: String| s@) == names@.take(i as int).map_values(
                            |s: String| s@,
                        ).filter(|t: Seq<char>| !has_char(t, '&')),
                    decreases n - i,
                {
                    let ghost kept0 = kept@;
                    let name = names[i].clone();
                    let keep = !contains_char(name.as_str(), '&');
                    if keep {
                        kept.push(name);
                    }
                    proof {
                        reveal(Seq::filter);
                        let f = |s: String| s@;
                        let pred = |t: Seq<char>| !has_char(t, '&');
                        let prev = names@.take(i as int).map_values(f);
                        let cur = names@.take(i as int + 1).map_values(f);
                        assert(cur =~= prev.push(names@[i as int]@));
                        assert(cur.drop_last() =~= prev);
                        if keep {
                            assert(kept@ =~= kept0.push(name));
                            assert(kept@.map_values(f) =~= kept0.map_values(f).push(name@));
                        }
                    }
                    i = i + 1;
                }
                proof {
                    assert(names@.take(n as int) =~= names@);
                }
                Ok(kept)
            },
            _ => Err(MailError::NoActiveSession),
        }
    }

    /// Starts (or resumes) a walk of `mailbox`: the outer layer must
    /// `SELECT` it and fetch the header at the returned position — the
    /// stored cursor, or 1 the first time the mailbox is selected this
    /// session. Re-selecting a mailbox resumes; it never rewinds.
    pub fn list_begin(&mut self, mailbox: &String) -> (r: Result<usize, MailError>)
        requires
            old(self).wf(),
        ensures
            final(self).wf(),
            match r {
                Ok(start) => {
                    &&& old(self).state is Active
                    &&& final(self).state is Active
                    &&& start >= 1
                    &&& (old(self).cursors_map().contains_key(mailbox@) ==> start == old(self).cursors_map()[mailbox@] && final(self).cursors_map() == old(self).cursors_map())
                    &&& (!old(self).cursors_map().contains_key(mailbox@) ==> start == 1 && final(self).cursors_map() == old(self).cursors_map().insert(mailbox@, 1))
                    &&& final(self).paging_mailbox() == Some(mailbox@)
                    &&& final(self).cache_map() == old(self).cache_map()
                },
                Err(e) => e == MailError::NoActiveSession && !(old(self).state is Active) && *final(self) == *old(self),
            },
    {
        match self.state {
            SessionState::Active => {
                let start = self.cursors.get_or_insert(mailbox);
                self.paging = Some(mailbox.clone());
                Ok(start)
            },
            _ => Err(MailError::NoActiveSession),
        }
    }

    /// Consumes one fetched header during a mailbox walk. An empty fetch
    /// means the walked mailbox has no message at the cursor: the walk
    /// ends and the terminal marker (all fields empty) is delivered, the
    /// cursor staying where it is. Otherwise the header is decoded into a
    /// metadata record carrying the synthesized `mailbox:sequence`
    /// identifier and the cursor advances by one — it is never
    /// decremented. A header that fails to decode aborts the walk with
    /// `ParseError`; metadata already delivered stays valid.
    pub fn page_next(&mut self, raw: Option<&Vec<u8>>) -> (r: Result<PageStep, MailError>)
        requires
            old(self).wf(),
            old(self).state is Active,
            old(self).paging_mailbox() is Some,
        ensures
            final(self).wf(),
            final(self).state is Active,
            final(self).cache_map() == old(self).cache_map(),
            ({
                let m = old(self).paging_mailbox()->Some_0;
                let c = old(self).cursors_map()[m];
                match r {
                    Ok(step) => match step {
                        PageStep::End { terminal } => {
                            &&& (raw is None || c == usize::MAX)
                            &&& terminal.uid@.len() == 0
                            &&& terminal.from@.len() == 0
                            &&& terminal.to@.len() == 0
                            &&& terminal.subject@.len() == 0
                            &&& terminal.date@.len() == 0
                            &&& final(self).paging_mailbox() is None
                            &&& final(self).cursors_map() == old(self).cursors_map()
                        },
                        PageStep::Item { meta, next_seq } => {
                            &&& raw is Some
                            &&& c < usize::MAX
                            &&& mail_parses(line_join(raw->Some_0@))
                            &&& meta.uid@ == uid_chars(m, c as int)
                            &&& meta.from@ == header_field(
                                line_join(raw->Some_0@),
                                "From"@,
                                "[unknown sender]"@,
                            )
                            &&& meta.to@ == header_field(
                                line_join(raw->Some_0@),
                                "To"@,
                                "[unknown recipient]"@,
                            )
                            &&& meta.subject@ == header_field(
                                line_join(raw->Some_0@),
                                "Subject"@,
                                "[no subject]"@,
                            )
                            &&& meta.date@ == header_field(
                                line_join(raw->Some_0@),
                                "Date"@,
                                "[unknown date]"@,
                            )
                            &&& next_seq == c + 1
                            &&& final(self).cursors_map() == old(self).cursors_map().insert(
                                m,
                                (c + 1) as usize,
                            )
                            &&& final(self).paging_mailbox() == Some(m)
                        },
                    },
                    Err(e) => {
                        &&& e == MailError::ParseError
                        &&& raw is Some
                        &&& !mail_parses(line_join(raw->Some_0@))
                        &&& final(self).paging_mailbox() is None
                        &&& final(self).cursors_map() == old(self).cursors_map()
                    },
                }
            }),
    {
        let mailbox = match &self.paging {
            Some(m) => m.clone(),
            None => unreached(),
        };
        let cursor = self.cursors.get_or_insert(&mailbox);
        match raw {
            None => {
                self.paging = None;
                Ok(PageStep::End { terminal: empty_metadata() })
            },
            Some(bytes) => {
                if cursor == usize::MAX {
                    self.paging = None;
                    return Ok(PageStep::End { terminal: empty_metadata() });
                }
                let uid = make_uid(mailbox.as_str(), cursor);
                match decode_metadata(bytes, uid) {
                    Err(e) => {
                        self.paging = None;
                        Err(e)
                    },
                    Ok(meta) => {
                        self.cursors.advance(&mailbox, cursor + 1);
                        Ok(PageStep::Item { meta, next_seq: cursor + 1 })
                    },
                }
            },
        }
    }

    /// Serves a detail request for a message identifier. A cached
    /// identifier is answered immediately, verbatim, with no network
    /// traffic; otherwise the identifier is resolved to its mailbox and
    /// sequence position and the outer layer is instructed to fetch.
    pub fn fetch_detail_begin(&mut self, uid: &String) -> (r: Result<DetailPlan, MailError>)
        requires
            old(self).wf(),
        ensures
            final(self).wf(),
            match r {
                Ok(plan) => old(self).state is Active && match plan {
                    DetailPlan::Cached { detail } => {
                        &&& old(self).cache_map().contains_key(uid@)
                        &&& detail_view(detail) == detail_view(old(self).cache_map()[uid@])
                        &&& *final(self) == *old(self)
                    },
                    DetailPlan::Fetch { mailbox, seq } => {
                        &&& !old(self).cache_map().contains_key(uid@)
                        &&& uid_parse(uid@) == Some((mailbox@, seq as int))
                        &&& final(self).pending_uid() == Some(uid@)
                        &&& final(self).state is Active
                        &&& final(self).cursors_map() == old(self).cursors_map()
                        &&& final(self).cache_map() == old(self).cache_map()
                    },
                },
                Err(e) => {
                    &&& *final(self) == *old(self)
                    &&& ((e == MailError::NoActiveSession && !(old(self).state is Active)) || (e
                        == MailError::ParseError && old(self).state is Active && !old(self).cache_map().contains_key(uid@) && uid_parse(uid@) is None))
                },
            },
    {
        match self.state {
            SessionState::Active => {
                match self.cache.lookup(uid) {
                    Some(detail) => Ok(DetailPlan::Cached { detail }),
                    None => {
                        match parse_uid(uid.as_str()) {
                            None => Err(MailError::ParseError),
                            Some((mailbox, seq)) => {
                                self.pending_detail = Some(uid.clone());
                                Ok(DetailPlan::Fetch { mailbox, seq })
                            },
                        }
                    },
                }
            },
            _ => Err(MailError::NoActiveSession),
        }
    }

    /// Completes a detail fetch from the fetched full message. The
    /// decoded record is stored in the cache under the pending
    /// identifier — at most one fetch per identifier — and returned
    /// together with the attachment writes to perform. `existing` names
    /// the files already present in the target directory.
    pub fn fetch_detail_finish(&mut self, raw: &Vec<u8>, existing: &Vec<String>) -> (r: Result<
        DetailResult,
        MailError,
    >)
        requires
            old(self).wf(),
            old(self).state is Active,
            old(self).pending_uid() is Some,
        ensures
            final(self).wf(),
            final(self).state is Active,
            final(self).pending_uid() is None,
            final(self).cursors_map() == old(self).cursors_map(),
            ({
                let u = old(self).pending_uid()->Some_0;
                let norm = line_join(raw@);
                match r {
                    Ok(res) => {
                        &&& mail_parses(norm)
                        &&& final(self).cache_map().contains_key(u)
                        &&& final(self).cache_map() == old(self).cache_map().insert(
                            u,
                            final(self).cache_map()[u],
                        )
                        &&& detail_view(final(self).cache_map()[u]) == detail_view(res.detail)
                        &&& if num_parts_of(norm) == 0 {
                            &&& res.detail.body@ == trimmed_of(body_or_fallback(norm))
                            &&& res.detail.attachments@.len() == 0
                            &&& res.writes@.len() == 0
                        } else {
                            &&& walk_upto(norm, num_parts_of(norm), names_of(existing@)) is Some
                            &&& res.detail.body@ == trimmed_of(
                                walk_upto(
                                    norm,
                                    num_parts_of(norm),
                                    names_of(existing@),
                                )->Some_0.body,
                            )
                            &&& res.detail.attachments@.map_values(|t: String| t@) == walk_upto(
                                norm,
                                num_parts_of(norm),
                                names_of(existing@),
                            )->Some_0.attachments
                            &&& res.writes@.map_values(|w: FileWrite| (w.name@, w.data@))
                                == walk_upto(
                                norm,
                                num_parts_of(norm),
                                names_of(existing@),
                            )->Some_0.writes
                        }
                    },
                    Err(e) => {
                        &&& e == MailError::ParseError
                        &&& (!mail_parses(norm) || (num_parts_of(norm) > 0 && walk_upto(
                            norm,
                            num_parts_of(norm),
                            names_of(existing@),
                        ) is None))
                        &&& final(self).cache_map() == old(self).cache_map()
                    },
                }
            }),
    {
        let uid = match &self.pending_detail {
            Some(u) => u.clone(),
            None => unreached(),
        };
        self.pending_detail = None;
        match decode_detail(raw, existing) {
            Err(e) => Err(e),
            Ok((detail, writes)) => {
                let stored = duplicate_detail(&detail);
                self.cache.insert(&uid, stored);
                Ok(DetailResult { detail, writes })
            },
        }
    }

    /// Validates a compose request's recipient, before any attachment
    /// file is read: the recipient check always precedes the read.
    pub fn send_begin(&self, to: &str) -> (r: Result<(), MailError>)
        requires
            self.wf(),
        ensures
            match r {
                Ok(()) => self.state is Active && addr_valid(to@),
                Err(e) => {
                    ||| (e == MailError::NoActiveSession && !(self.state is Active))
                    ||| (e == MailError::RecipientAddressInvalid && self.state is Active
                        && !addr_valid(to@))
                },
            },
    {
        match self.state {
            SessionState::Active => {
                if parse_addr_domain(to).is_none() {
                    Err(MailError::RecipientAddressInvalid)
                } else {
                    Ok(())
                }
            },
            _ => Err(MailError::NoActiveSession),
        }
    }

    /// Builds the outbound message of a compose request. `files` holds
    /// the bytes of each named attachment as read by the outer layer, or
    /// `None` when one of them could not be read. The built message's
    /// envelope names the session's user and the request's recipient, and
    /// its subject, body text and attachment parts are exactly the
    /// request's.
    pub fn send_build(&self, to: &str, subject: &str, body: &str, files: Option<
        Vec<AttachmentSource>,
    >) -> (r: Result<lettre::Message, MailError>)
        requires
            self.wf(),
        ensures
            match r {
                Ok(m) => {
                    &&& self.state is Active
                    &&& addr_valid(to@)
                    &&& files is Some
                    &&& (forall|i: int|
                        0 <= i < files->Some_0@.len() ==> ct_parses(
                            mime_of(files->Some_0@[i].path@),
                        ))
                    &&& msg_from_of(m) == self.user->Some_0.email_addr@
                    &&& msg_to_of(m) == seq![to@]
                    &&& msg_subject_of(m) == subject@
                    &&& msg_text_of(m) == body@
                    &&& msg_parts_of(m) == requested_parts(files->Some_0@)
                },
                Err(e) => {
                    ||| (e == MailError::NoActiveSession && !(self.state is Active))
                    ||| (e == MailError::RecipientAddressInvalid && self.state is Active
                        && !addr_valid(to@))
                    ||| (e == MailError::AttachmentReadError && self.state is Active && addr_valid(
                        to@,
                    ) && files is None)
                    ||| (e == MailError::SendError && self.state is Active && addr_valid(to@)
                        && files is Some && exists|i: int|
                        0 <= i < files->Some_0@.len() && !ct_parses(
                            mime_of(files->Some_0@[i].path@),
                        ))
                },
            },
    {
        match self.state {
            SessionState::Active => {
                let user = match &self.user {
                    Some(u) => u,
                    None => unreached(),
                };
                if crate::address::parse_addr_domain(to).is_none() {
                    return Err(MailError::RecipientAddressInvalid);
                }
                match files {
                    None => Err(MailError::AttachmentReadError),
                    Some(fs) => build_message(user, to, subject, body, &fs),
                }
            },
            _ => Err(MailError::NoActiveSession),
        }
    }

    /// Records a fatal transport failure in the middle of an action — a
    /// failed `SELECT`, a failed header or full-message `FETCH`, a failed
    /// `LIST`. The action fails with the returned error, nothing of it is
    /// delivered or cached, and the session is torn down: handles
    /// released, state `LoggedOut`, a fresh login accepted.
    pub fn transport_failed(&mut self) -> (e: MailError)
        requires
            old(self).wf(),
            old(self).state is Active,
        ensures
            final(self).wf(),
            e == MailError::ImapConnectError,
            final(self).state is LoggedOut,
            !final(self).smtp_open,
            !final(self).imap_open,
            final(self).user is None,
            final(self).cursors_map() == Map::<Seq<char>, usize>::empty(),
            final(self).cache_map() == Map::<Seq<char>, EmailDetail>::empty(),
            final(self).paging_mailbox() is None,
            final(self).pending_uid() is None,
    {
        self.state = SessionState::LoggedOut;
        self.user = None;
        self.smtp_open = false;
        self.imap_open = false;
        self.cursors = CursorMap::new();
        self.cache = DetailCache::new();
        self.paging = None;
        self.pending_detail = None;
        MailError::ImapConnectError
    }

    /// Records the transport's verdict on a send attempt.
    pub fn send_finish(&self, ok: bool) -> (r: Result<(), MailError>)
        requires
            self.wf(),
            self.state is Active,
        ensures
            r is Ok <==> ok,
            !ok ==> r == Result::<(), MailError>::Err(MailError::SendError),
    {
        if ok {
            Ok(())
        } else {
            Err(MailError::SendError)
        }
    }
}

/// The terminal marker of a mailbox walk: every field empty.
pub fn empty_metadata() -> (r: EmailMetadata)
    ensures
        r.uid@.len() == 0,
        r.from@.len() == 0,
        r.to@.len() == 0,
        r.subject@.len() == 0,
        r.date@.len() == 0,
{
    EmailMetadata {
        uid: String::new(),
        from: String::new(),
        to: String::new(),
        subject: String::new(),
        date: String::new(),
    }
}

/// The ordered identifiers a walk of `mailbox` emits when it starts at
/// cursor `lo` and ends before `hi`.
pub open spec fn page_ids(mailbox: Seq<char>, lo: int, hi: int) -> Seq<Seq<char>>
    recommends
        0 <= lo <= hi,
{
    Seq::new((hi - lo) as nat, |k: int| uid_chars(mailbox, lo + k))
}

/// Synthesized identifiers are injective in the sequence position.
pub proof fn lemma_uid_chars_injective(mailbox: Seq<char>, a: int, b: int)
    requires
        a >= 0,
        b >= 0,
        uid_chars(mailbox, a) == uid_chars(mailbox, b),
    ensures
        a == b,
{
    let d1 = dec_digits(a as nat);
    let d2 = dec_digits(b as nat);
    assert(uid_chars(mailbox, a).len() == mailbox.len() + 1 + d1.len());
    assert(uid_chars(mailbox, b).len() == mailbox.len() + 1 + d2.len());
    let base = mailbox.len() as int + 1;
    assert forall|t: int| 0 <= t < d1.len() implies #[trigger] d1[t] == d2[t] by {
        assert(uid_chars(mailbox, a)[base + t] == d1[t]);
        assert(uid_chars(mailbox, b)[base + t] == d2[t]);
    }
    assert(d1 =~= d2);
    lemma_dec_digits_injective(a as nat, b as nat);
}

/// Monotonic pagination: in one session, two consecutive walks of the
/// same mailbox — the first advancing the cursor from `c1` to `c2`, the
/// second from `c2` to `c3` — deliver identifier sequences that share no
/// element, and concatenated are exactly the ordered identifiers of the
/// whole range.
pub proof fn lemma_pagination_monotonic(mailbox: Seq<char>, c1: int, c2: int, c3: int)
    requires
        1 <= c1 <= c2 <= c3,
    ensures
        page_ids(mailbox, c1, c2) + page_ids(mailbox, c2, c3) =~= page_ids(mailbox, c1, c3),
        forall|i: int, j: int|
            0 <= i < page_ids(mailbox, c1, c2).len() && 0 <= j < page_ids(mailbox, c2, c3).len()
                ==> page_ids(mailbox, c1, c2)[i] != page_ids(mailbox, c2, c3)[j],
{
    assert forall|i: int, j: int|
        0 <= i < page_ids(mailbox, c1, c2).len() && 0 <= j < page_ids(
            mailbox,
            c2,
            c3,
        ).len() implies page_ids(mailbox, c1, c2)[i] != page_ids(mailbox, c2, c3)[j] by {
        if page_ids(mailbox, c1, c2)[i] == page_ids(mailbox, c2, c3)[j] {
            lemma_uid_chars_injective(mailbox, c1 + i, c2 + j);
        }
    }
}

} // verus!
