//! Legacy directives: what happens to a subject after a time lock, once
//! enough distinct eligible guardians approve.
use vstd::prelude::*;
use crate::text::{utf8, is_cid, is_cid_bytes, str_equal};
use crate::json::{json_text, json_opt_text, json_int, dec, json_text_array, push_json_str,
    push_json_opt_str, push_json_i64, push_dec, push_json_str_array};
use crate::order::{sort_dedup_by, text_lt, texts, sort_dedup_strings, contains_str};
use crate::hashing::blake3_digest;
use crate::text::hex_chars;
use crate::identity::prefixed_digest;

verus! {

/// What a directive does.
#[derive(Clone, Copy, Debug, PartialEq, Eq)]
pub enum LegacyAction {
    Transfer,
    Publish,
    Delete,
    RetainPrivate,
}

impl LegacyAction {
    /// The snake_case name the wire format uses.
    pub open spec fn wire_name(self) -> Seq<char> {
        match self {
            LegacyAction::Transfer => "transfer"@,
            LegacyAction::Publish => "publish"@,
            LegacyAction::Delete => "delete"@,
            LegacyAction::RetainPrivate => "retain_private"@,
        }
    }

    /// The snake_case name the wire format uses.
    pub fn name(&self) -> (res: &'static str)
        ensures
            res@ == self.wire_name(),
    {
        match self {
            LegacyAction::Transfer => "transfer",
            LegacyAction::Publish => "publish",
            LegacyAction::Delete => "delete",
            LegacyAction::RetainPrivate => "retain_private",
        }
    }
}

/// A legacy directive.
#[derive(Debug)]
pub struct LegacyDirective {
    pub directive_id: String,
    pub subject_cid: String,
    pub action: LegacyAction,
    pub beneficiary_id: Option<String>,
    pub not_before: i64,
    pub required_approvals: u16,
    pub eligible_guardians: Vec<String>,
}

/// Why a directive was refused.
#[derive(Debug)]
pub enum LegacyError {
    Invalid,
    TimeLock,
    Approvals,
}

/// The view of an optional string.
pub open spec fn opt_text(o: Option<String>) -> Option<Seq<char>> {
    match o {
        Some(s) => Some(s@),
        None => None,
    }
}

/// Whether the inputs make a valid directive.
pub open spec fn legacy_valid(
    subject_cid: Seq<char>,
    action: LegacyAction,
    beneficiary: Option<Seq<char>>,
    not_before: i64,
    required: u16,
    guardians: Seq<Seq<char>>,
) -> bool {
    &&& is_cid_bytes(utf8(subject_cid))
    &&& not_before >= 0
    &&& required != 0
    &&& required <= guardians.len()
    &&& forall|i: int| 0 <= i < guardians.len() ==> (#[trigger] guardians[i]).len() > 0
    &&& (action == LegacyAction::Transfer ==> (beneficiary matches Some(b) && b.len() > 0))
}

/// The JSON tuple whose digest is the directive id.
pub open spec fn legacy_id_bytes(
    subject_cid: Seq<char>,
    action: LegacyAction,
    beneficiary: Option<Seq<char>>,
    not_before: i64,
    required: u16,
    guardians: Seq<Seq<char>>,
) -> Seq<u8> {
    seq![91u8] + json_text(subject_cid) + seq![44u8] + json_text(action.wire_name()) + seq![44u8]
        + json_opt_text(beneficiary) + seq![44u8] + json_int(not_before as int) + seq![44u8] + dec(
        required as nat,
    ) + seq![44u8] + json_text_array(guardians) + seq![93u8]
}

/// The distinct elements of `s`, in order of first appearance.
pub open spec fn distinct(s: Seq<Seq<char>>) -> Seq<Seq<char>>
    decreases s.len(),
{
    if s.len() == 0 {
        seq![]
    } else {
        let r = distinct(s.drop_last());
        if r.contains(s.last()) {
            r
        } else {
            r.push(s.last())
        }
    }
}

/// The approvals that come from eligible guardians.
pub open spec fn eligible_approvals(approvals: Seq<Seq<char>>, guardians: Seq<Seq<char>>) -> Seq<
    Seq<char>,
> {
    approvals.filter(|a: Seq<char>| guardians.contains(a))
}

/// What `authorize` answers.
pub open spec fn legacy_authorize_outcome(
    d: &LegacyDirective,
    now: i64,
    approvals: Seq<Seq<char>>,
) -> Result<(), LegacyError> {
    if now < d.not_before {
        Err(LegacyError::TimeLock)
    } else if distinct(eligible_approvals(approvals, texts(d.eligible_guardians@))).len()
        < d.required_approvals {
        Err(LegacyError::Approvals)
    } else {
        Ok(())
    }
}

impl LegacyDirective {
    /// A directive: guardians sorted without repetition, inputs checked, id
    /// derived from the JSON tuple of the fields.
    pub fn new(
        subject_cid: String,
        action: LegacyAction,
        beneficiary_id: Option<String>,
        not_before: i64,
        required_approvals: u16,
        eligible_guardians: Vec<String>,
    ) -> (res: Result<Self, LegacyError>)
        ensures
            !legacy_valid(
                subject_cid@,
                action,
                opt_text(beneficiary_id),
                not_before,
                required_approvals,
                sort_dedup_by(texts(eligible_guardians@), text_lt()),
            ) ==> res == Err::<LegacyDirective, LegacyError>(LegacyError::Invalid),
            legacy_valid(
                subject_cid@,
                action,
                opt_text(beneficiary_id),
                not_before,
                required_approvals,
                sort_dedup_by(texts(eligible_guardians@), text_lt()),
            ) ==> (res matches Ok(d) && {
                &&& d.subject_cid == subject_cid
                &&& d.action == action
                &&& d.beneficiary_id == beneficiary_id
                &&& d.not_before == not_before
                &&& d.required_approvals == required_approvals
                &&& texts(d.eligible_guardians@) == sort_dedup_by(
                    texts(eligible_guardians@),
                    text_lt(),
                )
                &&& d.directive_id@ == "leg_"@ + hex_chars(
                    blake3_digest(
                        legacy_id_bytes(
                            subject_cid@,
                            action,
                            opt_text(beneficiary_id),
                            not_before,
                            required_approvals,
                            texts(d.eligible_guardians@),
                        ),
                    ),
                )
            }),
    {
        let guardians = sort_dedup_strings(&eligible_guardians);
        let mut any_empty = false;
        let mut i: usize = 0;
        while i < guardians.len()
            invariant
                0 <= i <= guardians@.len(),
                any_empty == exists|q: int| 0 <= q < i && (#[trigger] texts(guardians@)[q]).len() == 0,
            decreases guardians@.len() - i,
        {
            if guardians[i].as_str().is_empty() {
                assert(texts(guardians@)[i as int].len() == 0);
                any_empty = true;
            }
            i = i + 1;
        }
        let transfer_ok = match action {
            LegacyAction::Transfer => match &beneficiary_id {
                Some(b) => !b.as_str().is_empty(),
                None => false,
            },
            _ => true,
        };
        if !is_cid(subject_cid.as_str()) || not_before < 0 || required_approvals == 0
            || required_approvals as usize > guardians.len() || any_empty || !transfer_ok {
            return Err(LegacyError::Invalid);
        }
        let mut bytes: Vec<u8> = Vec::new();
        bytes.push(91);
        push_json_str(&mut bytes, subject_cid.as_str());
        bytes.push(44);
        push_json_str(&mut bytes, action.name());
        bytes.push(44);
        push_json_opt_str(&mut bytes, &beneficiary_id);
        bytes.push(44);
        push_json_i64(&mut bytes, not_before);
        bytes.push(44);
        push_dec(&mut bytes, required_approvals as u64);
        bytes.push(44);
        push_json_str_array(&mut bytes, &guardians);
        bytes.push(93);
        assert(bytes@ =~= legacy_id_bytes(
            subject_cid@,
            action,
            opt_text(beneficiary_id),
            not_before,
            required_approvals,
            texts(guardians@),
        ));
        let directive_id = prefixed_digest("leg_", &bytes);
        Ok(LegacyDirective {
            directive_id,
            subject_cid,
            action,
            beneficiary_id,
            not_before,
            required_approvals,
            eligible_guardians: guardians,
        })
    }

    /// Whether the time lock has passed and enough distinct eligible
    /// guardians approve.
    pub fn authorize(&self, now: i64, approvals: &[String]) -> (res: Result<(), LegacyError>)
        ensures
            res == legacy_authorize_outcome(self, now, approvals@.map_values(|s: String| s@)),
    {
        if now < self.not_before {
            return Err(LegacyError::TimeLock);
        }
        let ghost all = approvals@.map_values(|s: String| s@);
        let ghost guardians = texts(self.eligible_guardians@);
        let mut unique: Vec<String> = Vec::new();
        let mut i: usize = 0;
        while i < approvals.len()
            invariant
                0 <= i <= approvals@.len(),
                all == approvals@.map_values(|s: String| s@),
                guardians == texts(self.eligible_guardians@),
                texts(unique@) == distinct(eligible_approvals(all.take(i as int), guardians)),
            decreases approvals@.len() - i,
        {
            let a = &approvals[i];
            proof {
                assert(all.take(i + 1).drop_last() =~= all.take(i as int));
                assert(all.take(i + 1).last() == a@);
                assert(all.take(i + 1) =~= all.take(i as int).push(a@));
                lemma_filter_push(all.take(i as int), a@, guardians);
            }
            let ghost e = eligible_approvals(all.take(i as int), guardians);
            proof {
                assert(e.push(a@).drop_last() =~= e);
                assert(e.push(a@).last() == a@);
            }
            if contains_str(&self.eligible_guardians, a.as_str()) {
                if !contains_str(&unique, a.as_str()) {
                    let ghost before = texts(unique@);
                    unique.push(a.clone());
                    assert(texts(unique@) =~= before.push(a@));
                }
            }
            i = i + 1;
        }
        assert(all.take(approvals@.len() as int) =~= all);
        if unique.len() < self.required_approvals as usize {
            return Err(LegacyError::Approvals);
        }
        Ok(())
    }
}

/// Filtering a sequence with one more element.
pub proof fn lemma_filter_push(s: Seq<Seq<char>>, x: Seq<char>, guardians: Seq<Seq<char>>)
    ensures
        eligible_approvals(s.push(x), guardians) == if guardians.contains(x) {
            eligible_approvals(s, guardians).push(x)
        } else {
            eligible_approvals(s, guardians)
        },
{
    reveal(Seq::filter);
    assert(s.push(x).drop_last() =~= s);
}

/// `distinct` holds each element once.
pub proof fn law_distinct_has_no_repeats(s: Seq<Seq<char>>)
    ensures
        forall|i: int, j: int|
            0 <= i < j < distinct(s).len() ==> distinct(s)[i] != distinct(s)[j],
        forall|x: Seq<char>| distinct(s).contains(x) <==> s.contains(x),
    decreases s.len(),
{
    if s.len() > 0 {
        law_distinct_has_no_repeats(s.drop_last());
        let r = distinct(s.drop_last());
        assert forall|x: Seq<char>| distinct(s).contains(x) <==> s.contains(x) by {
            if s.contains(x) {
                let k = choose|k: int| 0 <= k < s.len() && s[k] == x;
                if k < s.len() - 1 {
                    assert(s.drop_last()[k] == x);
                }
            }
            if s.drop_last().contains(x) {
                let k = choose|k: int| 0 <= k < s.drop_last().len() && s.drop_last()[k] == x;
                assert(s[k] == x);
            }
            if !r.contains(s.last()) {
                assert(r.push(s.last())[r.len() as int] == s.last());
                if r.contains(x) {
                    let k = choose|k: int| 0 <= k < r.len() && r[k] == x;
                    assert(r.push(s.last())[k] == x);
                }
                if r.push(s.last()).contains(x) {
                    let k = choose|k: int| 0 <= k < r.len() + 1 && r.push(s.last())[k] == x;
                    if k < r.len() {
                        assert(r[k] == x);
                    }
                }
            }
        }
    }
}

/// A directive authorizes exactly when its time lock has passed and the
/// approvals hold at least the required number of distinct eligible
/// guardians: repeating an approval never counts twice.
pub proof fn law_repeated_approval_counts_once(d: &LegacyDirective, now: i64, approvals: Seq<Seq<char>>, x: Seq<char>)
    requires
        approvals.contains(x),
    ensures
        legacy_authorize_outcome(d, now, approvals.push(x)) == legacy_authorize_outcome(d, now, approvals),
{
    let g = texts(d.eligible_guardians@);
    lemma_filter_push(approvals, x, g);
    if g.contains(x) {
        let e = eligible_approvals(approvals, g);
        law_distinct_has_no_repeats(e);
        let k = choose|k: int| 0 <= k < approvals.len() && approvals[k] == x;
        reveal(Seq::filter);
        lemma_filter_contains(approvals, g, k);
        assert(e.push(x).drop_last() =~= e);
    }
}

/// An eligible element of a sequence survives the filter.
pub proof fn lemma_filter_contains(s: Seq<Seq<char>>, g: Seq<Seq<char>>, k: int)
    requires
        0 <= k < s.len(),
        g.contains(s[k]),
    ensures
        eligible_approvals(s, g).contains(s[k]),
    decreases s.len(),
{
    reveal(Seq::filter);
    if k < s.len() - 1 {
        lemma_filter_contains(s.drop_last(), g, k);
        assert(s.drop_last()[k] == s[k]);
        let e = eligible_approvals(s.drop_last(), g);
        let j = choose|j: int| 0 <= j < e.len() && e[j] == s[k];
        if g.contains(s.last()) {
            assert(eligible_approvals(s, g) == e.push(s.last()));
            assert(e.push(s.last())[j] == s[k]);
        } else {
            assert(eligible_approvals(s, g) == e);
        }
    } else {
        assert(eligible_approvals(s, g) == eligible_approvals(s.drop_last(), g).push(s.last()));
        let e = eligible_approvals(s.drop_last(), g);
        assert(e.push(s.last())[e.len() as int] == s[k]);
    }
}

} // verus!
