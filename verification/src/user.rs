//! The user service's own logic: registration and profile-update
//! preparation, the e-mail verification records, and the mapping from store
//! failures to responses. The relational writes, password hashing and mail
//! delivery around these decisions are the edge layer's.
use vstd::prelude::*;
use crate::codec::str_eq;
use crate::errors::{CustomError, DbErrorKind};
use crate::events::DomainEvent;
use crate::dispatch::{DispatchOutcome, UserServiceState};
use crate::events::{InboundMessage, InboundMessageV};
use crate::validation::{CreateUserBody, UpdateUserBody, UserEmail, UserName, valid_email, valid_username};

verus! {

/// How this service answers a relational-store failure: the two named
/// unique constraints get their own responses, a missing row is "not
/// found", and everything else is an internal error.
pub fn diesel_db_response_error(err: &DbErrorKind) -> (r: CustomError)
    ensures
        r matches CustomError::DatabaseError { msg, resp, status_code } && msg@
            == "Database error occurred"@,
        ({
            let (want_resp, want_status): (Seq<char>, u16) = match *err {
                DbErrorKind::UniqueViolation { ref constraint } => {
                    if constraint.deep_view() == Some("unique_username"@) {
                        ("Username has already been taken"@, 400u16)
                    } else if constraint.deep_view() == Some("unique_email"@) {
                        ("Account already associated with this email"@, 400u16)
                    } else {
                        ("Database error occurred due to unique constraint violation"@, 500u16)
                    }
                },
                DbErrorKind::NotFound => ("Record not found"@, 404u16),
                _ => ("Internal server error"@, 500u16),
            };
            r matches CustomError::DatabaseError { msg, resp, status_code } && resp@ == want_resp
                && status_code == want_status
        }),
{
    let msg = String::from_str("Database error occurred");
    match err {
        DbErrorKind::UniqueViolation { constraint } => {
            match constraint {
                Some(c) => {
                    if str_eq(c.as_str(), "unique_username") {
                        CustomError::DatabaseError {
                            msg,
                            resp: String::from_str("Username has already been taken"),
                            status_code: 400,
                        }
                    } else if str_eq(c.as_str(), "unique_email") {
                        CustomError::DatabaseError {
                            msg,
                            resp: String::from_str("Account already associated with this email"),
                            status_code: 400,
                        }
                    } else {
                        CustomError::DatabaseError {
                            msg,
                            resp: String::from_str(
                                "Database error occurred due to unique constraint violation",
                            ),
                            status_code: 500,
                        }
                    }
                },
                None => CustomError::DatabaseError {
                    msg,
                    resp: String::from_str(
                        "Database error occurred due to unique constraint violation",
                    ),
                    status_code: 500,
                },
            }
        },
        DbErrorKind::NotFound => CustomError::DatabaseError {
            msg,
            resp: String::from_str("Record not found"),
            status_code: 404,
        },
        _ => CustomError::DatabaseError {
            msg,
            resp: String::from_str("Internal server error"),
            status_code: 500,
        },
    }
}

/// The compute half of registration: validates the request body and builds
/// the registration event the publish path will carry; rejected bodies
/// produce the validator's error and no event.
pub fn prepare_registration(body: CreateUserBody, user_id: u128, now: i64) -> (r: Result<
    (UserName, UserEmail, DomainEvent),
    CustomError,
>)
    ensures
        r is Ok <==> valid_username(body.username@) && valid_email(body.email@),
        r matches Ok(p) ==> p.0@ == body.username@ && p.1@ == body.email@ && p.2@ == (
        crate::events::EventV::UserRegistered {
            id: user_id,
            username: body.username@,
            email: body.email@,
            created_at: Some(now),
        }),
        r matches Err(e) ==> e is ValidationError,
{
    let (name, email) = body.validate()?;
    let event = DomainEvent::UserRegistered {
        id: user_id,
        username: String::from_str(name.as_str()),
        email: String::from_str(email.as_str()),
        created_at: Some(now),
    };
    Ok((name, email, event))
}

/// The compute half of a profile update: validates the request body and
/// builds the update event.
pub fn prepare_profile_update(body: UpdateUserBody, user_id: u128) -> (r: Result<
    (UserName, UserEmail, DomainEvent),
    CustomError,
>)
    ensures
        r is Ok <==> valid_username(body.username@) && valid_email(body.email@),
        r matches Ok(p) ==> p.0@ == body.username@ && p.1@ == body.email@ && p.2@ == (
        crate::events::EventV::UserUpdated {
            id: user_id,
            username: body.username@,
            email: body.email@,
        }),
        r matches Err(e) ==> e is ValidationError,
{
    let (name, email) = body.validate()?;
    let event = DomainEvent::UserUpdated {
        id: user_id,
        username: String::from_str(name.as_str()),
        email: String::from_str(email.as_str()),
    };
    Ok((name, email, event))
}

/// An update that matched no row is surfaced as an unexpected error.
pub fn confirm_update(rows_updated: usize) -> (r: Result<(), CustomError>)
    ensures
        rows_updated == 0 <==> r is Err,
        r matches Err(e) ==> (e matches CustomError::UnexpectedError(m) && m@
            == "No user found to update"@),
{
    if rows_updated == 0 {
        Err(CustomError::UnexpectedError(String::from_str("No user found to update")))
    } else {
        Ok(())
    }
}

// ---------------------------------------------------------------------------
// E-mail verification
// ---------------------------------------------------------------------------
/// The verification state of an address.
#[derive(Debug, PartialEq, Eq, Structural, Clone, Copy)]
pub enum StatusEnum {
    Pending,
    Verified,
}

/// One verification record: the mailed token, its owner, its expiry instant
/// and its state.
pub struct EmailVerification {
    pub token: String,
    pub user_id: u128,
    pub expires_at: i64,
    pub status: StatusEnum,
}

/// Mathematical value of `EmailVerification`.
pub struct EmailVerificationV {
    pub token: Seq<char>,
    pub user_id: u128,
    pub expires_at: i64,
    pub status: StatusEnum,
}

impl View for EmailVerification {
    type V = EmailVerificationV;

    open spec fn view(&self) -> EmailVerificationV {
        EmailVerificationV {
            token: self.token@,
            user_id: self.user_id,
            expires_at: self.expires_at,
            status: self.status,
        }
    }
}

pub open spec fn has_verification(rows: Seq<EmailVerificationV>, user_id: u128) -> bool {
    exists|i: int| 0 <= i < rows.len() && rows[i].user_id == user_id
}

pub open spec fn verification_idx(rows: Seq<EmailVerificationV>, user_id: u128) -> int {
    choose|i: int| 0 <= i < rows.len() && rows[i].user_id == user_id
}

pub open spec fn verification_users_unique(rows: Seq<EmailVerificationV>) -> bool {
    forall|i: int, j: int| 0 <= i < j < rows.len() ==> rows[i].user_id != rows[j].user_id
}

/// A token is redeemable when its record is pending and not yet expired.
pub open spec fn token_redeemable(rows: Seq<EmailVerificationV>, token: Seq<char>, now: i64) -> bool {
    exists|i: int|
        0 <= i < rows.len() && rows[i].token == token && rows[i].expires_at > now && rows[i].status
            == StatusEnum::Pending
}

/// Redeeming marks every record carrying the token as verified.
pub open spec fn spec_redeem(rows: Seq<EmailVerificationV>, token: Seq<char>) -> Seq<
    EmailVerificationV,
> {
    rows.map_values(
        |r: EmailVerificationV|
            if r.token == token {
                EmailVerificationV { status: StatusEnum::Verified, ..r }
            } else {
                r
            },
    )
}

/// The verification records, one per user.
pub struct VerificationTable {
    rows: Vec<EmailVerification>,
}

impl View for VerificationTable {
    type V = Seq<EmailVerificationV>;

    closed spec fn view(&self) -> Seq<EmailVerificationV> {
        self.rows@.map_values(|r: EmailVerification| r@)
    }
}

impl VerificationTable {
    pub open spec fn wf(&self) -> bool {
        verification_users_unique(self@)
    }

    pub fn new() -> (r: VerificationTable)
        ensures
            r@ == Seq::<EmailVerificationV>::empty(),
            r.wf(),
    {
        let r = VerificationTable { rows: Vec::new() };
        proof {
            assert(r@ =~= Seq::<EmailVerificationV>::empty());
        }
        r
    }

    pub fn len(&self) -> (r: usize)
        ensures
            r == self@.len(),
    {
        self.rows.len()
    }

    fn find_user(&self, user_id: u128) -> (r: Option<usize>)
        ensures
            match r {
                Some(i) => i < self@.len() && self@[i as int].user_id == user_id,
                None => !has_verification(self@, user_id),
            },
    {
        let mut i: usize = 0;
        while i < self.rows.len()
            invariant
                0 <= i <= self@.len(),
                self@.len() == self.rows@.len(),
                forall|j: int| 0 <= j < i ==> self@[j].user_id != user_id,
            decreases self@.len() - i,
        {
            if self.rows[i].user_id == user_id {
                return Some(i);
            }
            i = i + 1;
        }
        None
    }

    /// Writes the pending record for a user: a fresh token and expiry,
    /// replacing any earlier record of the user. Registration and the
    /// resend path both come through here.
    pub fn put_pending(&mut self, user_id: u128, token: String, expires_at: i64)
        requires
            old(self).wf(),
        ensures
            final(self).wf(),
            ({
                let row = EmailVerificationV {
                    token: token@,
                    user_id,
                    expires_at,
                    status: StatusEnum::Pending,
                };
                if has_verification(old(self)@, user_id) {
                    final(self)@ == old(self)@.update(
                        verification_idx(old(self)@, user_id),
                        row,
                    )
                } else {
                    final(self)@ == old(self)@.push(row)
                }
            }),
    {
        let row = EmailVerification { token, user_id, expires_at, status: StatusEnum::Pending };
        let ghost before = self@;
        match self.find_user(user_id) {
            Some(i) => {
                self.rows.set(i, row);
                proof {
                    assert(verification_idx(before, user_id) == i as int) by {
                        let j = verification_idx(before, user_id);
                        assert(0 <= j < before.len() && before[j].user_id == user_id);
                    }
                    assert(self@ =~= before.update(i as int, (EmailVerificationV {
                        token: row@.token,
                        user_id,
                        expires_at,
                        status: StatusEnum::Pending,
                    })));
                    assert forall|a: int, b: int|
                        0 <= a < b < self@.len() implies self@[a].user_id != self@[b].user_id by {
                        assert(self@[a].user_id == before[a].user_id);
                        assert(self@[b].user_id == before[b].user_id);
                    }
                }
            },
            None => {
                self.rows.push(row);
                proof {
                    assert(self@ =~= before.push(
                        (EmailVerificationV {
                            token: row@.token,
                            user_id,
                            expires_at,
                            status: StatusEnum::Pending,
                        }),
                    ));
                    assert forall|a: int, b: int|
                        0 <= a < b < self@.len() implies self@[a].user_id != self@[b].user_id by {
                        if b < before.len() {
                            assert(self@[a].user_id == before[a].user_id);
                            assert(self@[b].user_id == before[b].user_id);
                        } else {
                            assert(self@[a].user_id == before[a].user_id);
                        }
                    }
                }
            },
        }
    }

    /// The verification state of a user, if a record exists.
    pub fn status_of(&self, user_id: u128) -> (r: Option<StatusEnum>)
        requires
            self.wf(),
        ensures
            has_verification(self@, user_id) ==> r == Some(
                self@[verification_idx(self@, user_id)].status,
            ),
            !has_verification(self@, user_id) ==> r is None,
    {
        match self.find_user(user_id) {
            Some(i) => {
                proof {
                    let j = verification_idx(self@, user_id);
                    assert(0 <= j < self@.len() && self@[j].user_id == user_id);
                    if j != i as int {
                        assert(self@[j].user_id == self@[i as int].user_id);
                    }
                }
                Some(self.rows[i].status)
            },
            None => None,
        }
    }

    /// Redeems a token: when some record carries it, unexpired and pending,
    /// every record with the token becomes verified; otherwise the token is
    /// rejected as invalid or expired and nothing changes.
    pub fn verify_token(&mut self, token: &str, now: i64) -> (r: Result<(), CustomError>)
        requires
            old(self).wf(),
        ensures
            final(self).wf(),
            r is Ok <==> token_redeemable(old(self)@, token@, now),
            r is Ok ==> final(self)@ == spec_redeem(old(self)@, token@),
            r matches Err(e) ==> (e matches CustomError::ValidationError(m) && m@
                == "Invalid or expired token"@) && final(self)@ == old(self)@,
    {
        let ghost before = self@;
        let mut found = false;
        let mut i: usize = 0;
        while i < self.rows.len()
            invariant
                0 <= i <= self@.len(),
                self@.len() == self.rows@.len(),
                self@ == before,
                found == exists|j: int|
                    0 <= j < i && self@[j].token == token@ && self@[j].expires_at > now
                        && self@[j].status == StatusEnum::Pending,
            decreases self@.len() - i,
        {
            proof {
                assert(self@[i as int] == self.rows@[i as int]@);
            }
            let row = &self.rows[i];
            let token_matches = str_eq(row.token.as_str(), token);
            let redeemable = token_matches && row.expires_at > now && row.status
                == StatusEnum::Pending;
            let ghost found_before = found;
            if redeemable {
                found = true;
            }
            proof {
                if found && !found_before && !redeemable {
                    assert(false);
                }
                if redeemable {
                    assert(self@[i as int].token == token@ && self@[i as int].expires_at > now
                        && self@[i as int].status == StatusEnum::Pending);
                }
            }
            i = i + 1;
        }
        if !found {
            return Err(CustomError::ValidationError(String::from_str("Invalid or expired token")));
        }
        let mut i: usize = 0;
        while i < self.rows.len()
            invariant
                0 <= i <= self@.len(),
                self@.len() == self.rows@.len(),
                self@.len() == before.len(),
                forall|k: int|
                    0 <= k < i ==> #[trigger] self@[k] == (if before[k].token == token@ {
                        EmailVerificationV { status: StatusEnum::Verified, ..before[k] }
                    } else {
                        before[k]
                    }),
                forall|k: int| i <= k < self@.len() ==> #[trigger] self@[k] == before[k],
                verification_users_unique(self@),
            decreases self@.len() - i,
        {
            let ghost mid = self@;
            proof {
                assert(self@[i as int] == self.rows@[i as int]@);
                assert(mid[i as int] == before[i as int]);
            }
            if str_eq(self.rows[i].token.as_str(), token) {
                let row = &self.rows[i];
                let new_row = EmailVerification {
                    token: String::from_str(row.token.as_str()),
                    user_id: row.user_id,
                    expires_at: row.expires_at,
                    status: StatusEnum::Verified,
                };
                self.rows.set(i, new_row);
                proof {
                    assert(before[i as int].token == token@);
                    assert(self@ =~= mid.update(
                        i as int,
                        (EmailVerificationV { status: StatusEnum::Verified, ..before[i as int] }),
                    ));
                    assert(self@[i as int] == (EmailVerificationV {
                        status: StatusEnum::Verified,
                        ..before[i as int]
                    }));
                    assert(forall|k: int|
                        0 <= k < self@.len() && k != i ==> #[trigger] self@[k] == mid[k]);
                }
            } else {
                proof {
                    assert(before[i as int].token != token@);
                }
            }
            proof {
                assert forall|a: int, b: int|
                    0 <= a < b < self@.len() implies self@[a].user_id != self@[b].user_id by {
                    assert(self@[a].user_id == before[a].user_id);
                    assert(self@[b].user_id == before[b].user_id);
                }
            }
            i = i + 1;
        }
        proof {
            assert(self@ =~= spec_redeem(before, token@));
        }
        Ok(())
    }
}

/// A pending address may not act yet: the check every protected read makes.
pub fn require_verified(status: StatusEnum) -> (r: Result<(), CustomError>)
    ensures
        status == StatusEnum::Verified <==> r is Ok,
        r matches Err(e) ==> (e matches CustomError::ValidationError(m) && m@
            == "Please verify your email before proceeding."@),
{
    match status {
        StatusEnum::Verified => Ok(()),
        StatusEnum::Pending => Err(
            CustomError::ValidationError(
                String::from_str("Please verify your email before proceeding."),
            ),
        ),
    }
}

/// Resending is only for addresses still pending.
pub fn require_pending(status: StatusEnum) -> (r: Result<(), CustomError>)
    ensures
        status == StatusEnum::Pending <==> r is Ok,
        r matches Err(e) ==> (e matches CustomError::ValidationError(m) && m@
            == "Email is already verified or no pending verification"@),
{
    match status {
        StatusEnum::Pending => Ok(()),
        StatusEnum::Verified => Err(
            CustomError::ValidationError(
                String::from_str("Email is already verified or no pending verification"),
            ),
        ),
    }
}

/// The user service's dispatch loop over a batch of inbound messages,
/// processed in order, never stopping on a message that cannot be handled.
pub fn process_kafka_message(state: &mut UserServiceState, msgs: &Vec<InboundMessage>) -> (r: Vec<
    DispatchOutcome,
>)
    requires
        old(state).wf(),
    ensures
        final(state).wf(),
        final(state)@ == crate::dispatch::spec_user_run(old(state)@, msgs@.map_values(|m: InboundMessage| m@)),
        r@.len() == msgs@.len(),
{
    let ghost all = msgs@.map_values(|m: InboundMessage| m@);
    let mut outcomes: Vec<DispatchOutcome> = Vec::new();
    let mut i: usize = 0;
    proof {
        assert(all.take(0) =~= Seq::<InboundMessageV>::empty());
    }
    while i < msgs.len()
        invariant
            0 <= i <= msgs@.len(),
            all == msgs@.map_values(|m: InboundMessage| m@),
            state.wf(),
            state@ == crate::dispatch::spec_user_run(old(state)@, all.take(i as int)),
            outcomes@.len() == i,
        decreases msgs@.len() - i,
    {
        let outcome = crate::dispatch::user_dispatch_step(state, &msgs[i]);
        outcomes.push(outcome);
        proof {
            assert(all.take(i + 1) =~= all.take(i as int).push(all[i as int]));
            crate::dispatch::lemma_user_run_snoc(old(state)@, all.take(i as int), all[i as int]);
        }
        i = i + 1;
    }
    proof {
        assert(all.take(msgs@.len() as int) =~= all);
    }
    outcomes
}

} // verus!
