//! The bank's shared ledger of accounts.
//!
//! The ledger maps each username to its PIN and balance.  Usernames are
//! unique; authentication answers with a bare boolean so that an unknown
//! user and a wrong PIN are indistinguishable to the asker.  Balances are
//! held in cents so that amounts are exact integers.

use vstd::prelude::*;

use crate::message::{
    spec_all_digits, spec_digits_value, MAX_USERNAME_SIZE,
};
use crate::text::{
    all_digits_range, alpha_run_end, dot_or_end, lemma_alpha_run_end, lemma_alpha_run_end_exact,
    lemma_digits_value_nonneg, lemma_digits_value_ge_prefix, lemma_dot_or_end,
    lemma_dot_or_end_exact, parse_u64_digits, spec_alpha_run_end, spec_dot_or_end, spec_is_alpha,
    spec_starts_with, str_eq, str_starts_with,
};
use vstd::string::StrSliceExecFns;

verus! {

/// One account: a username, its four-digit PIN, and a balance in cents.
pub struct User {
    pub name: String,
    pub pin: u16,
    pub balance: u64,
}

impl User {
    /// Create a new account record.
    pub fn new(name: String, pin: u16, balance: u64) -> (u: Self)
        ensures
            u.name@ == name@,
            u.pin == pin,
            u.balance == balance,
    {
        Self { name, pin, balance }
    }
}

/// The first account in `s` whose name is `n`, if any.
pub open spec fn spec_lookup(s: Seq<User>, n: Seq<char>) -> Option<User>
    decreases s.len(),
{
    if s.len() == 0 {
        None
    } else if s[0].name@ == n {
        Some(s[0])
    } else {
        spec_lookup(s.drop_first(), n)
    }
}

/// A name is absent exactly when no account carries it.
pub proof fn lemma_lookup_none(s: Seq<User>, n: Seq<char>)
    ensures
        spec_lookup(s, n) is None <==> (forall|i: int|
            0 <= i < s.len() ==> (#[trigger] s[i].name@) != n),
    decreases s.len(),
{
    if s.len() > 0 {
        lemma_lookup_none(s.drop_first(), n);
        assert(forall|i: int|
            1 <= i < s.len() ==> (#[trigger] s[i].name@) == s.drop_first()[i - 1].name@);
    }
}

/// The first account holding the name is the lookup's answer.
pub proof fn lemma_lookup_first(s: Seq<User>, n: Seq<char>, i: int)
    requires
        0 <= i < s.len(),
        s[i].name@ == n,
        forall|j: int| 0 <= j < i ==> (#[trigger] s[j].name@) != n,
    ensures
        spec_lookup(s, n) == Some(s[i]),
    decreases s.len(),
{
    if i > 0 {
        lemma_lookup_first(s.drop_first(), n, i - 1);
    }
}

/// Replacing the account at `i` by one with the same name leaves every
/// other name's lookup unchanged.
pub proof fn lemma_lookup_update(s: Seq<User>, i: int, u: User, n: Seq<char>)
    requires
        0 <= i < s.len(),
        u.name@ == s[i].name@,
        n != s[i].name@,
    ensures
        spec_lookup(s.update(i, u), n) == spec_lookup(s, n),
    decreases s.len(),
{
    if i == 0 {
        assert(s.update(i, u).drop_first() =~= s.drop_first());
    } else {
        assert(s.update(i, u)[0] == s[0]);
        if s[0].name@ != n {
            assert(s.update(i, u).drop_first() =~= s.drop_first().update(i - 1, u));
            lemma_lookup_update(s.drop_first(), i - 1, u, n);
        }
    }
}

/// Appending an account answers lookups for its name only when the name
/// was absent, and changes no other name's lookup.
pub proof fn lemma_lookup_push(s: Seq<User>, u: User, n: Seq<char>)
    ensures
        spec_lookup(s.push(u), n) == if spec_lookup(s, n) is Some {
            spec_lookup(s, n)
        } else if u.name@ == n {
            Some(u)
        } else {
            None::<User>
        },
    decreases s.len(),
{
    if s.len() == 0 {
        assert(s.push(u)[0] == u);
        assert(s.push(u).drop_first() =~= Seq::<User>::empty());
    } else {
        assert(s.push(u)[0] == s[0]);
        assert(s.push(u).drop_first() =~= s.drop_first().push(u));
        lemma_lookup_push(s.drop_first(), u, n);
    }
}

/// Whether `pin` authenticates `n` against the accounts `s`: the name must
/// be present and carry exactly that PIN.  An absent name and a wrong PIN
/// are indistinguishable in the answer.
pub open spec fn spec_authenticates(s: Seq<User>, n: Seq<char>, pin: u16) -> bool {
    match spec_lookup(s, n) {
        Some(u) => u.pin == pin,
        None => false,
    }
}

/// Errors mutating a ledger balance.
#[derive(Debug, Clone, Copy, PartialEq, Eq, Structural)]
pub enum LedgerError {
    /// The named account does not exist.
    UnknownUser,
    /// The mutation would overflow the account's balance.
    BalanceOverflow,
}

/// The shared ledger: every account the bank knows.
pub struct Bank {
    users: Vec<User>,
}

impl Bank {
    /// The accounts of the ledger.
    pub closed spec fn spec_users(&self) -> Seq<User> {
        self.users@
    }

    /// Creates a new, empty ledger.
    pub fn new() -> (b: Self)
        ensures
            b.spec_users() == Seq::<User>::empty(),
    {
        Self { users: Vec::new() }
    }

    /// Finds the account holding `username`, if any.
    fn find_user(&self, username: &str) -> (r: Option<usize>)
        ensures
            match r {
                Some(i) => i < self.spec_users().len() && self.spec_users()[i as int].name@
                    == username@ && spec_lookup(self.spec_users(), username@) == Some(
                    self.spec_users()[i as int],
                ) && (forall|j: int|
                    0 <= j < i ==> (#[trigger] self.spec_users()[j].name@) != username@),
                None => spec_lookup(self.spec_users(), username@) is None,
            },
    {
        let n = self.users.len();
        let mut i: usize = 0;
        while i < n
            invariant
                0 <= i <= n,
                n == self.spec_users().len(),
                forall|j: int| 0 <= j < i ==> (#[trigger] self.spec_users()[j].name@) != username@,
            decreases n - i,
        {
            if str_eq(self.users[i].name.as_str(), username) {
                proof {
                    lemma_lookup_first(self.spec_users(), username@, i as int);
                }
                return Some(i);
            }
            i = i + 1;
        }
        proof {
            lemma_lookup_none(self.spec_users(), username@);
        }
        None
    }

    /// Check whether the given username names an account.
    pub fn is_existing_user(&self, username: &str) -> (r: bool)
        ensures
            r == (spec_lookup(self.spec_users(), username@) is Some),
    {
        self.find_user(username).is_some()
    }

    /// Attempts to authenticate the given user with the given PIN.  The
    /// answer is a bare boolean: an unknown user and a wrong PIN look the
    /// same to the caller.
    pub fn attempt_authentication(&self, username: &str, pin: u16) -> (r: bool)
        ensures
            r == spec_authenticates(self.spec_users(), username@, pin),
    {
        match self.find_user(username) {
            Some(i) => self.users[i].pin == pin,
            None => false,
        }
    }

    /// The balance of the named account, if it exists.
    pub fn get_balance(&self, username: &str) -> (r: Option<u64>)
        ensures
            r == match spec_lookup(self.spec_users(), username@) {
                Some(u) => Some(u.balance),
                None => None::<u64>,
            },
    {
        match self.find_user(username) {
            Some(i) => Some(self.users[i].balance),
            None => None,
        }
    }

    /// Adds a new account, or replaces the account of the same name, as a
    /// map insertion would.
    pub fn create_new_account(&mut self, username: &String, pin: u16, balance: u64)
        ensures
            spec_lookup(final(self).spec_users(), username@) matches Some(u) && u.name@
                == username@ && u.pin == pin && u.balance == balance,
            forall|n: Seq<char>|
                n != username@ ==> #[trigger] spec_lookup(final(self).spec_users(), n)
                    == spec_lookup(old(self).spec_users(), n),
    {
        let u = User::new(username.clone(), pin, balance);
        match self.find_user(username.as_str()) {
            Some(i) => {
                proof {
                    assert forall|n: Seq<char>| n != username@ implies #[trigger] spec_lookup(
                        self.spec_users().update(i as int, u),
                        n,
                    ) == spec_lookup(self.spec_users(), n) by {
                        lemma_lookup_update(self.spec_users(), i as int, u, n);
                    }
                    lemma_lookup_first(self.spec_users().update(i as int, u), username@, i as int);
                }
                self.users[i] = u;
            },
            None => {
                proof {
                    lemma_lookup_none(self.spec_users(), username@);
                    assert forall|n: Seq<char>| true implies #[trigger] spec_lookup(
                        self.spec_users().push(u),
                        n,
                    ) == if spec_lookup(self.spec_users(), n) is Some {
                        spec_lookup(self.spec_users(), n)
                    } else if u.name@ == n {
                        Some(u)
                    } else {
                        None::<User>
                    } by {
                        lemma_lookup_push(self.spec_users(), u, n);
                    }
                    assert(forall|j: int|
                        0 <= j < self.spec_users().len() ==> (#[trigger] self.spec_users()[j].name@)
                            != username@);
                }
                self.users.push(u);
            },
        }
    }

    /// Adds `delta` cents to the named account's balance.  Fails when the
    /// account does not exist or the balance would overflow; on failure the
    /// ledger is unchanged.
    pub fn mutate_balance(&mut self, username: &str, delta: u64) -> (r: Result<(), LedgerError>)
        ensures
            match spec_lookup(old(self).spec_users(), username@) {
                None => r == Err::<(), LedgerError>(LedgerError::UnknownUser)
                    && final(self).spec_users() == old(self).spec_users(),
                Some(u) => if u.balance + delta > u64::MAX {
                    r == Err::<(), LedgerError>(LedgerError::BalanceOverflow)
                        && final(self).spec_users() == old(self).spec_users()
                } else {
                    r == Ok::<(), LedgerError>(()) && (spec_lookup(
                        final(self).spec_users(),
                        username@,
                    ) matches Some(nu) && nu.name@ == u.name@ && nu.pin == u.pin && nu.balance
                        == u.balance + delta) && (forall|n: Seq<char>|
                        n != username@ ==> #[trigger] spec_lookup(final(self).spec_users(), n)
                            == spec_lookup(old(self).spec_users(), n))
                },
            },
    {
        match self.find_user(username) {
            None => Err(LedgerError::UnknownUser),
            Some(i) => {
                let old_balance = self.users[i].balance;
                if u64::MAX - delta < old_balance {
                    return Err(LedgerError::BalanceOverflow);
                }
                let name = self.users[i].name.clone();
                let pin = self.users[i].pin;
                let u = User::new(name, pin, old_balance + delta);
                proof {
                    assert forall|n: Seq<char>| n != username@ implies #[trigger] spec_lookup(
                        self.spec_users().update(i as int, u),
                        n,
                    ) == spec_lookup(self.spec_users(), n) by {
                        lemma_lookup_update(self.spec_users(), i as int, u, n);
                    }
                    lemma_lookup_first(self.spec_users().update(i as int, u), username@, i as int);
                }
                self.users[i] = u;
                Ok(())
            },
        }
    }

    /// The number of accounts.
    pub fn user_count(&self) -> (n: usize)
        ensures
            n == self.spec_users().len(),
    {
        self.users.len()
    }

    /// The account at the given position, for listing the ledger.
    pub fn user_at(&self, i: usize) -> (u: &User)
        requires
            i < self.spec_users().len(),
        ensures
            u == self.spec_users()[i as int],
    {
        &self.users[i]
    }
}

/// A money amount as the console grammar accepts it: one or more digits,
/// optionally followed by a dot and up to two more digits.  The answer is
/// the amount in cents, unbounded.
pub open spec fn spec_parse_amount(s: Seq<char>) -> Option<int> {
    let k = spec_dot_or_end(s, 0);
    let d = s.take(k);
    if !(d.len() >= 1 && spec_all_digits(d)) {
        None
    } else if k == s.len() {
        Some(100 * spec_digits_value(d))
    } else {
        let c = s.skip(k + 1);
        if !(c.len() <= 2 && spec_all_digits(c)) {
            None
        } else {
            Some(
                100 * spec_digits_value(d) + spec_digits_value(c) * (if c.len() == 1 {
                    10int
                } else {
                    1int
                }),
            )
        }
    }
}

/// The declarative shape of an amount token: one or more digits, either
/// alone or followed by a dot and up to two more digits.
pub open spec fn spec_amount_form(s: Seq<char>, d: Seq<char>, c: Seq<char>, dotted: bool) -> bool {
    &&& d.len() >= 1
    &&& spec_all_digits(d)
    &&& spec_all_digits(c)
    &&& c.len() <= 2
    &&& if dotted {
        s == d + seq!['.'] + c
    } else {
        c.len() == 0 && s == d
    }
}

/// The cents a decomposed amount token spells.
pub open spec fn spec_form_cents(d: Seq<char>, c: Seq<char>) -> int {
    100 * spec_digits_value(d) + spec_digits_value(c) * (if c.len() == 1 {
        10int
    } else {
        1int
    })
}

/// The amount parser recognizes exactly the tokens of the amount shape,
/// and answers exactly the cents their decomposition spells.
pub proof fn lemma_amount_grammar(s: Seq<char>)
    ensures
        match spec_parse_amount(s) {
            Some(v) => exists|d: Seq<char>, c: Seq<char>, dotted: bool|
                #[trigger] spec_amount_form(s, d, c, dotted) && v == spec_form_cents(d, c),
            None => forall|d: Seq<char>, c: Seq<char>, dotted: bool|
                !spec_amount_form(s, d, c, dotted),
        },
{
    lemma_dot_or_end(s, 0);
    let k = spec_dot_or_end(s, 0);
    match spec_parse_amount(s) {
        Some(v) => {
            let d = s.take(k);
            if k == s.len() {
                let c = Seq::<char>::empty();
                assert(s.take(k) =~= s);
                assert(spec_amount_form(s, d, c, false));
                assert(v == spec_form_cents(d, c));
            } else {
                let c = s.skip(k + 1);
                assert(s =~= d + seq!['.'] + c);
                assert(spec_amount_form(s, d, c, true));
                assert(v == spec_form_cents(d, c));
            }
        },
        None => {
            assert forall|d: Seq<char>, c: Seq<char>, dotted: bool| !spec_amount_form(
                s,
                d,
                c,
                dotted,
            ) by {
                if spec_amount_form(s, d, c, dotted) {
                    if !dotted {
                        assert(forall|m: int|
                            0 <= m < s.len() ==> (#[trigger] s[m]) == d[m] && s[m] != '.');
                        lemma_dot_or_end_exact(s, 0, s.len() as int);
                        assert(s.take(s.len() as int) =~= d);
                    } else {
                        let dl = d.len() as int;
                        assert(forall|m: int| 0 <= m < dl ==> (#[trigger] s[m]) == d[m]);
                        assert(s[dl] == '.');
                        lemma_dot_or_end_exact(s, 0, dl);
                        assert(s.take(dl) =~= d);
                        assert(s.skip(dl + 1) =~= c);
                    }
                }
            }
        },
    }
}

/// Why an amount token was rejected.
enum AmountError {
    /// The token does not match the amount grammar.
    Malformed,
    /// The token matches the grammar but spells more cents than the ledger
    /// can hold.
    TooLarge,
}

/// Parses a console amount token into cents.
fn parse_amount_cents(s: &str) -> (r: Result<u64, AmountError>)
    ensures
        match spec_parse_amount(s@) {
            None => r matches Err(AmountError::Malformed),
            Some(c) => if c <= u64::MAX {
                r matches Ok(v) && v == c
            } else {
                r matches Err(AmountError::TooLarge)
            },
        },
{
    let n = s.unicode_len();
    let k = dot_or_end(s, 0);
    proof {
        lemma_dot_or_end(s@, 0);
        assert(s@.take(k as int) =~= s@.subrange(0, k as int));
    }
    if k == 0 {
        return Err(AmountError::Malformed);
    }
    if !all_digits_range(s, 0, k) {
        return Err(AmountError::Malformed);
    }
    if k < n {
        if n - k - 1 > 2 {
            proof {
                assert(s@.skip(k + 1).len() == n - k - 1);
            }
            return Err(AmountError::Malformed);
        }
        if !all_digits_range(s, k + 1, n) {
            proof {
                assert(s@.skip(k + 1) =~= s@.subrange(k + 1, n as int));
            }
            return Err(AmountError::Malformed);
        }
    }
    proof {
        if k < n {
            assert(s@.skip(k + 1) =~= s@.subrange(k + 1, n as int));
        }
    }
    let ghost d = s@.take(k as int);
    let ghost cpart = s@.skip(k + 1);
    let dollars = match parse_u64_digits(s, 0, k) {
        Some(v) => v,
        None => {
            proof {
                if k < n {
                    lemma_digits_value_nonneg(cpart);
                }
            }
            return Err(AmountError::TooLarge);
        },
    };
    let cents_part: u64 = if k < n && k + 1 < n {
        let m = n - k - 1;
        let cv = match parse_u64_digits(s, k + 1, n) {
            Some(v) => v,
            None => {
                proof {
                    crate::message::lemma_digits_value_bound(cpart);
                }
                return Err(AmountError::TooLarge);
            },
        };
        proof {
            crate::message::lemma_digits_value_bound(cpart);
        }
        if m == 1 {
            cv * 10
        } else {
            cv
        }
    } else {
        0
    };
    if dollars > 184467440737095516u64 {
        proof {
            if k < n {
                lemma_digits_value_nonneg(cpart);
            }
        }
        return Err(AmountError::TooLarge);
    }
    let t = dollars * 100;
    if u64::MAX - t < cents_part {
        return Err(AmountError::TooLarge);
    }
    Ok(t + cents_part)
}

/// What the bank console answers to one line of input.
pub enum BankReply {
    /// A new account was created.
    Created { username: String },
    /// The account already exists, so none was created.
    UserExists { username: String },
    /// The requested username is longer than a frame can carry.
    UsernameTooLong,
    /// The create-user line did not match its grammar.
    UsageCreateUser,
    /// The deposit was applied; the amount and the new balance, in cents.
    Deposited { username: String, amount: u64, balance: u64 },
    /// The deposit would overflow the account's balance.
    DepositOverflow,
    /// The deposit amount spells more cents than the ledger can hold.
    DepositTooLarge,
    /// The named account does not exist.
    UnknownAccount,
    /// The deposit line did not match its grammar.
    UsageDeposit,
    /// The account's balance, in cents.
    BalanceIs { username: String, balance: u64 },
    /// The balance line did not match its grammar.
    UsageBalance,
    /// The create-user amount spells more cents than the ledger can hold.
    AmountTooLarge,
    /// The whole ledger should be listed.
    ListUsers,
    /// The command list should be shown.
    Help,
    /// No command matched.
    Invalid,
}

/// The create-user command: `create-user <name> <4-digit-pin> <amount>`,
/// with a letters-only name.  The answer is the name, the PIN value, and
/// the amount in cents, unbounded.
pub open spec fn spec_parse_create_user(s: Seq<char>) -> Option<(Seq<char>, int, int)> {
    let pre = "create-user "@;
    if !spec_starts_with(s, pre) {
        None
    } else {
        let k1 = spec_alpha_run_end(s, pre.len() as int);
        let u = s.subrange(pre.len() as int, k1);
        if u.len() < 1 || !(k1 + 5 < s.len()) || s[k1] != ' ' || !spec_all_digits(
            s.subrange(k1 + 1, k1 + 5),
        ) || s[k1 + 5] != ' ' {
            None
        } else {
            match spec_parse_amount(s.skip(k1 + 6)) {
                None => None,
                Some(c) => Some((u, spec_digits_value(s.subrange(k1 + 1, k1 + 5)), c)),
            }
        }
    }
}

/// The deposit command: `deposit <name> <amount>`.
pub open spec fn spec_parse_deposit(s: Seq<char>) -> Option<(Seq<char>, int)> {
    let pre = "deposit "@;
    if !spec_starts_with(s, pre) {
        None
    } else {
        let k1 = spec_alpha_run_end(s, pre.len() as int);
        let u = s.subrange(pre.len() as int, k1);
        if u.len() < 1 || !(k1 < s.len()) || s[k1] != ' ' {
            None
        } else {
            match spec_parse_amount(s.skip(k1 + 1)) {
                None => None,
                Some(c) => Some((u, c)),
            }
        }
    }
}

/// The balance command: `balance <name>`.
pub open spec fn spec_parse_balance(s: Seq<char>) -> Option<Seq<char>> {
    let pre = "balance "@;
    if !spec_starts_with(s, pre) {
        None
    } else {
        let k1 = spec_alpha_run_end(s, pre.len() as int);
        let u = s.subrange(pre.len() as int, k1);
        if u.len() < 1 || k1 != s.len() {
            None
        } else {
            Some(u)
        }
    }
}

/// The declarative shape of a create-user line.
pub open spec fn spec_create_user_form(
    s: Seq<char>,
    u: Seq<char>,
    pin: Seq<char>,
    amt: Seq<char>,
) -> bool {
    &&& s == "create-user "@ + u + seq![' '] + pin + seq![' '] + amt
    &&& u.len() >= 1
    &&& (forall|i: int| 0 <= i < u.len() ==> spec_is_alpha(#[trigger] u[i]))
    &&& pin.len() == 4
    &&& spec_all_digits(pin)
    &&& (exists|d: Seq<char>, c: Seq<char>, dotted: bool| spec_amount_form(amt, d, c, dotted))
}

/// The create-user parser recognizes exactly the lines of the create-user
/// shape, and returns exactly their decomposition.
pub proof fn lemma_create_user_grammar(s: Seq<char>)
    ensures
        match spec_parse_create_user(s) {
            Some((u, pinv, cents)) => exists|pin: Seq<char>, amt: Seq<char>|
                #[trigger] spec_create_user_form(s, u, pin, amt) && pinv == spec_digits_value(pin)
                    && spec_parse_amount(amt) == Some(cents),
            None => forall|u: Seq<char>, pin: Seq<char>, amt: Seq<char>|
                !spec_create_user_form(s, u, pin, amt),
        },
{
    let pre = "create-user "@;
    reveal_strlit("create-user ");
    match spec_parse_create_user(s) {
        Some((u, pinv, cents)) => {
            let k1 = spec_alpha_run_end(s, pre.len() as int);
            lemma_alpha_run_end(s, pre.len() as int);
            let pin = s.subrange(k1 + 1, k1 + 5);
            let amt = s.skip(k1 + 6);
            assert(s =~= pre + u + seq![' '] + pin + seq![' '] + amt);
            lemma_amount_grammar(amt);
            assert(spec_create_user_form(s, u, pin, amt));
        },
        None => {
            assert forall|u: Seq<char>, pin: Seq<char>, amt: Seq<char>| !spec_create_user_form(
                s,
                u,
                pin,
                amt,
            ) by {
                if spec_create_user_form(s, u, pin, amt) {
                    let k1: int = pre.len() as int + u.len() as int;
                    assert(s.subrange(0, pre.len() as int) =~= pre);
                    assert forall|m: int| pre.len() <= m < k1 implies spec_is_alpha(
                        #[trigger] s[m],
                    ) by {
                        assert(s[m] == u[m - pre.len()]);
                    }
                    assert(s[k1] == ' ');
                    assert(!spec_is_alpha(s[k1]));
                    lemma_alpha_run_end_exact(s, pre.len() as int, k1);
                    assert(s.subrange(pre.len() as int, k1) =~= u);
                    assert(forall|m: int| 0 <= m < 4 ==> (#[trigger] s[k1 + 1 + m]) == pin[m]);
                    assert(s.subrange(k1 + 1, k1 + 5) =~= pin);
                    assert(s[k1 + 5] == ' ');
                    let w = choose|d: Seq<char>, c: Seq<char>, dotted: bool|
                        spec_amount_form(amt, d, c, dotted);
                    assert(spec_amount_form(amt, w.0, w.1, w.2));
                    assert(amt.len() >= 1);
                    assert(s.skip(k1 + 6) =~= amt);
                    lemma_amount_grammar(amt);
                    assert(spec_parse_amount(amt) is Some);
                }
            }
        },
    }
}

/// The declarative shape of a deposit line.
pub open spec fn spec_deposit_form(s: Seq<char>, u: Seq<char>, amt: Seq<char>) -> bool {
    &&& s == "deposit "@ + u + seq![' '] + amt
    &&& u.len() >= 1
    &&& (forall|i: int| 0 <= i < u.len() ==> spec_is_alpha(#[trigger] u[i]))
    &&& (exists|d: Seq<char>, c: Seq<char>, dotted: bool| spec_amount_form(amt, d, c, dotted))
}

/// The deposit parser recognizes exactly the lines of the deposit shape,
/// and returns exactly their decomposition.
pub proof fn lemma_deposit_grammar(s: Seq<char>)
    ensures
        match spec_parse_deposit(s) {
            Some((u, cents)) => exists|amt: Seq<char>|
                #[trigger] spec_deposit_form(s, u, amt) && spec_parse_amount(amt) == Some(cents),
            None => forall|u: Seq<char>, amt: Seq<char>| !spec_deposit_form(s, u, amt),
        },
{
    let pre = "deposit "@;
    reveal_strlit("deposit ");
    match spec_parse_deposit(s) {
        Some((u, cents)) => {
            let k1 = spec_alpha_run_end(s, pre.len() as int);
            lemma_alpha_run_end(s, pre.len() as int);
            let amt = s.skip(k1 + 1);
            assert(s =~= pre + u + seq![' '] + amt);
            lemma_amount_grammar(amt);
            assert(spec_deposit_form(s, u, amt));
        },
        None => {
            assert forall|u: Seq<char>, amt: Seq<char>| !spec_deposit_form(s, u, amt) by {
                if spec_deposit_form(s, u, amt) {
                    let k1: int = pre.len() as int + u.len() as int;
                    assert(s.subrange(0, pre.len() as int) =~= pre);
                    assert forall|m: int| pre.len() <= m < k1 implies spec_is_alpha(
                        #[trigger] s[m],
                    ) by {
                        assert(s[m] == u[m - pre.len()]);
                    }
                    assert(s[k1] == ' ');
                    assert(!spec_is_alpha(s[k1]));
                    lemma_alpha_run_end_exact(s, pre.len() as int, k1);
                    assert(s.subrange(pre.len() as int, k1) =~= u);
                    let w = choose|d: Seq<char>, c: Seq<char>, dotted: bool|
                        spec_amount_form(amt, d, c, dotted);
                    assert(spec_amount_form(amt, w.0, w.1, w.2));
                    assert(amt.len() >= 1);
                    assert(s.skip(k1 + 1) =~= amt);
                    lemma_amount_grammar(amt);
                    assert(spec_parse_amount(amt) is Some);
                }
            }
        },
    }
}

/// The declarative shape of a balance line.
pub open spec fn spec_balance_form(s: Seq<char>, u: Seq<char>) -> bool {
    &&& s == "balance "@ + u
    &&& u.len() >= 1
    &&& (forall|i: int| 0 <= i < u.len() ==> spec_is_alpha(#[trigger] u[i]))
}

/// The balance parser recognizes exactly the lines of the balance shape,
/// and returns exactly their username.
pub proof fn lemma_balance_grammar(s: Seq<char>)
    ensures
        match spec_parse_balance(s) {
            Some(u) => spec_balance_form(s, u),
            None => forall|u: Seq<char>| !spec_balance_form(s, u),
        },
{
    let pre = "balance "@;
    reveal_strlit("balance ");
    match spec_parse_balance(s) {
        Some(u) => {
            lemma_alpha_run_end(s, pre.len() as int);
            assert(s =~= pre + u);
        },
        None => {
            assert forall|u: Seq<char>| !spec_balance_form(s, u) by {
                if spec_balance_form(s, u) {
                    let k1: int = pre.len() as int + u.len() as int;
                    assert(s.subrange(0, pre.len() as int) =~= pre);
                    assert forall|m: int| pre.len() <= m < k1 implies spec_is_alpha(
                        #[trigger] s[m],
                    ) by {
                        assert(s[m] == u[m - pre.len()]);
                    }
                    lemma_alpha_run_end_exact(s, pre.len() as int, k1);
                    assert(s.subrange(pre.len() as int, k1) =~= u);
                }
            }
        },
    }
}

/// What one create-user line does to the ledger and answers, given the
/// ledger before (`old_users`) and after (`new_users`).
pub open spec fn spec_create_user_outcome(
    old_users: Seq<User>,
    new_users: Seq<User>,
    s: Seq<char>,
    r: BankReply,
) -> bool {
    match spec_parse_create_user(s) {
        None => r == BankReply::UsageCreateUser && new_users == old_users,
        Some((u, pinv, cents)) => if u.len() > MAX_USERNAME_SIZE {
            r == BankReply::UsernameTooLong && new_users == old_users
        } else if cents > u64::MAX {
            r == BankReply::AmountTooLarge && new_users == old_users
        } else if spec_lookup(old_users, u) is Some {
            (r matches BankReply::UserExists { username } && username@ == u) && new_users
                == old_users
        } else {
            &&& (r matches BankReply::Created { username } && username@ == u)
            &&& (spec_lookup(new_users, u) matches Some(nu) && nu.name@ == u && nu.pin == pinv
                && nu.balance == cents)
            &&& (forall|n: Seq<char>|
                n != u ==> #[trigger] spec_lookup(new_users, n) == spec_lookup(old_users, n))
        },
    }
}

/// What one deposit line does to the ledger and answers.
pub open spec fn spec_deposit_outcome(
    old_users: Seq<User>,
    new_users: Seq<User>,
    s: Seq<char>,
    r: BankReply,
) -> bool {
    match spec_parse_deposit(s) {
        None => r == BankReply::UsageDeposit && new_users == old_users,
        Some((u, cents)) => match spec_lookup(old_users, u) {
            None => r == BankReply::UnknownAccount && new_users == old_users,
            Some(acct) => if cents > u64::MAX {
                r == BankReply::DepositTooLarge && new_users == old_users
            } else if acct.balance + cents > u64::MAX {
                r == BankReply::DepositOverflow && new_users == old_users
            } else {
                &&& (r matches BankReply::Deposited { username, amount, balance } && username@
                    == u && amount == cents && balance == acct.balance + cents)
                &&& (spec_lookup(new_users, u) matches Some(nu) && nu.name@ == acct.name@
                    && nu.pin == acct.pin && nu.balance == acct.balance + cents)
                &&& (forall|n: Seq<char>|
                    n != u ==> #[trigger] spec_lookup(new_users, n) == spec_lookup(old_users, n))
            },
        },
    }
}

/// What one balance line answers; the ledger is never changed.
pub open spec fn spec_balance_outcome(users: Seq<User>, s: Seq<char>, r: BankReply) -> bool {
    match spec_parse_balance(s) {
        None => r == BankReply::UsageBalance,
        Some(u) => match spec_lookup(users, u) {
            None => r == BankReply::UnknownAccount,
            Some(acct) => r matches BankReply::BalanceIs { username, balance } && username@ == u
                && balance == acct.balance,
        },
    }
}

impl Bank {
    /// Handles a create-user line: parses it, validates the name and the
    /// amount, and adds the account unless one of that name exists.
    fn process_create_user(&mut self, input: &str) -> (r: BankReply)
        ensures
            spec_create_user_outcome(
                old(self).spec_users(),
                final(self).spec_users(),
                input@,
                r,
            ),
    {
        proof {
            reveal_strlit("create-user ");
        }
        if !str_starts_with(input, "create-user ") {
            return BankReply::UsageCreateUser;
        }
        let n = input.unicode_len();
        let k1 = alpha_run_end(input, 12);
        proof {
            lemma_alpha_run_end(input@, 12);
        }
        if k1 == 12 {
            return BankReply::UsageCreateUser;
        }
        if n - k1 < 6 {
            return BankReply::UsageCreateUser;
        }
        if input.get_char(k1) != ' ' {
            return BankReply::UsageCreateUser;
        }
        if !all_digits_range(input, k1 + 1, k1 + 5) {
            return BankReply::UsageCreateUser;
        }
        if input.get_char(k1 + 5) != ' ' {
            return BankReply::UsageCreateUser;
        }
        let amt = input.substring_char(k1 + 6, n);
        proof {
            assert(amt@ =~= input@.skip(k1 + 6));
        }
        let amount = parse_amount_cents(amt);
        if matches!(amount, Err(AmountError::Malformed)) {
            return BankReply::UsageCreateUser;
        }
        if k1 - 12 > MAX_USERNAME_SIZE {
            return BankReply::UsernameTooLong;
        }
        let cents = match amount {
            Err(_) => {
                return BankReply::AmountTooLarge;
            },
            Ok(v) => v,
        };
        proof {
            assert(input@.subrange(k1 + 1, k1 + 5).len() == 4);
            crate::message::lemma_digits_value_bound(input@.subrange(k1 + 1, k1 + 5));
        }
        let pinv = parse_u64_digits(input, k1 + 1, k1 + 5).unwrap();
        let pin = pinv as u16;
        let uname = input.substring_char(12, k1);
        if self.is_existing_user(uname) {
            return BankReply::UserExists { username: uname.to_owned() };
        }
        let username = uname.to_owned();
        self.create_new_account(&username, pin, cents);
        BankReply::Created { username }
    }

    /// Handles a deposit line: parses it and adds the amount to the named
    /// account's balance.
    fn process_deposit(&mut self, input: &str) -> (r: BankReply)
        ensures
            spec_deposit_outcome(old(self).spec_users(), final(self).spec_users(), input@, r),
    {
        proof {
            reveal_strlit("deposit ");
        }
        if !str_starts_with(input, "deposit ") {
            return BankReply::UsageDeposit;
        }
        let n = input.unicode_len();
        let k1 = alpha_run_end(input, 8);
        proof {
            lemma_alpha_run_end(input@, 8);
        }
        if k1 == 8 {
            return BankReply::UsageDeposit;
        }
        if n - k1 < 2 {
            return BankReply::UsageDeposit;
        }
        if input.get_char(k1) != ' ' {
            return BankReply::UsageDeposit;
        }
        let amt = input.substring_char(k1 + 1, n);
        proof {
            assert(amt@ =~= input@.skip(k1 + 1));
        }
        let amount = parse_amount_cents(amt);
        if matches!(amount, Err(AmountError::Malformed)) {
            return BankReply::UsageDeposit;
        }
        let uname = input.substring_char(8, k1);
        let old_balance = match self.get_balance(uname) {
            None => {
                return BankReply::UnknownAccount;
            },
            Some(b) => b,
        };
        let cents = match amount {
            Err(_) => {
                return BankReply::DepositTooLarge;
            },
            Ok(v) => v,
        };
        if u64::MAX - cents < old_balance {
            return BankReply::DepositOverflow;
        }
        let username = uname.to_owned();
        let outcome = self.mutate_balance(uname, cents);
        proof {
            assert(outcome is Ok);
        }
        BankReply::Deposited { username, amount: cents, balance: old_balance + cents }
    }

    /// Handles a balance line: parses it and reads the named account's
    /// balance.
    fn process_balance(&self, input: &str) -> (r: BankReply)
        ensures
            spec_balance_outcome(self.spec_users(), input@, r),
    {
        proof {
            reveal_strlit("balance ");
        }
        if !str_starts_with(input, "balance ") {
            return BankReply::UsageBalance;
        }
        let n = input.unicode_len();
        let k1 = alpha_run_end(input, 8);
        proof {
            lemma_alpha_run_end(input@, 8);
        }
        if k1 == 8 {
            return BankReply::UsageBalance;
        }
        if k1 != n {
            return BankReply::UsageBalance;
        }
        let uname = input.substring_char(8, k1);
        match self.get_balance(uname) {
            None => BankReply::UnknownAccount,
            Some(b) => BankReply::BalanceIs { username: uname.to_owned(), balance: b },
        }
    }

    /// Processes one line of console input, dispatching on its leading
    /// word.  Only create-user and deposit lines can change the ledger.
    pub fn process_input(&mut self, input: &str) -> (r: BankReply)
        ensures
            ({
                let s = input@;
                &&& spec_starts_with(s, "create-user"@) ==> spec_create_user_outcome(
                    old(self).spec_users(),
                    final(self).spec_users(),
                    s,
                    r,
                )
                &&& (!spec_starts_with(s, "create-user"@) && spec_starts_with(s, "deposit"@))
                    ==> spec_deposit_outcome(
                    old(self).spec_users(),
                    final(self).spec_users(),
                    s,
                    r,
                )
                &&& (!spec_starts_with(s, "create-user"@) && !spec_starts_with(s, "deposit"@)
                    && spec_starts_with(s, "balance"@)) ==> (spec_balance_outcome(
                    old(self).spec_users(),
                    s,
                    r,
                ) && final(self).spec_users() == old(self).spec_users())
                &&& (!spec_starts_with(s, "create-user"@) && !spec_starts_with(s, "deposit"@)
                    && !spec_starts_with(s, "balance"@)) ==> (final(self).spec_users() == old(
                    self,
                ).spec_users() && r == (if s == "users"@ {
                    BankReply::ListUsers
                } else if s == "help"@ {
                    BankReply::Help
                } else {
                    BankReply::Invalid
                }))
            }),
    {
        if str_starts_with(input, "create-user") {
            self.process_create_user(input)
        } else if str_starts_with(input, "deposit") {
            self.process_deposit(input)
        } else if str_starts_with(input, "balance") {
            self.process_balance(input)
        } else if str_eq(input, "users") {
            BankReply::ListUsers
        } else if str_eq(input, "help") {
            BankReply::Help
        } else {
            BankReply::Invalid
        }
    }

    /// The bank's console prompt.
    pub fn get_prompt() -> (r: String)
        ensures
            r@ == "BANK: "@,
    {
        String::from_str("BANK: ")
    }

    /// The bank's console command list.
    pub fn get_help_display() -> (r: String)
        ensures
            r@
                == "  create-user <user-name> <pin> <balance>\n  deposit <user-name> <amt>\n  balance <user-name>\n  users\n  exit"@,
    {
        String::from_str(
            "  create-user <user-name> <pin> <balance>\n  deposit <user-name> <amt>\n  balance <user-name>\n  users\n  exit",
        )
    }
}

} // verus!
