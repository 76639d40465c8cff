//! Accounts: password hashing, the login check, account creation and the
//! password reset numbers.

use vstd::prelude::*;
use crate::text::{spec_to_uppercase, spec_to_lowercase, to_uppercase, to_lowercase, decimal_digits,
    u64_to_string, to_owned_string, byte_count, byte_len, str_eq};
use crate::validate::{spec_is_account_name, spec_is_account_password, spec_is_character_name,
    spec_is_email_valid, is_account_name, is_account_password, is_character_name, is_email_valid};
use crate::lists::{has_text, contains_str, lemma_filter_take_step};
use crate::config::Config;
use crate::json::{Json, JsonView, JsonNumber, view_entries, object_entries, lemma_view_entries, int_value};
use crate::protocol::{AccountCreateRequest, PasswordResetProcessRequest};
use crate::state::world::{World, AccountCreationRecord, PasswordResetEntry, from_address, from_address_since};

verus! {

/// bcrypt's error type.
#[verifier::external_type_specification]
#[verifier::external_body]
pub struct ExBcryptError(bcrypt::BcryptError);

/// The outcome of `bcrypt::verify` on a password and a stored hash:
/// `Some(b)` where it returns `Ok(b)`, `None` where it fails (a malformed
/// hash).
pub uninterp spec fn spec_bcrypt_verify(password: Seq<char>, hash: Seq<char>) -> Option<bool>;

/// The decimal digit `d` (0 to 9) as a character.
pub open spec fn digit_char(d: int) -> char {
    (48 + d) as char
}

/// The start of a hash that `bcrypt::hash` writes at `cost`: the version
/// `$2b$`, the cost in two digits, and `$`.
pub open spec fn bcrypt_prefix(cost: u32) -> Seq<char> {
    seq!['$', '2', 'b', '$', digit_char((cost / 10) as int), digit_char((cost % 10) as int), '$']
}

/// `bcrypt::hash`. Its salt is random, so the hash itself is left unsaid;
/// what its source shows of every outcome is stated: a cost outside 4..=31
/// is refused; a hash made starts with the version `$2b$`, the cost in two
/// digits and `$`, then holds the 22-character salt and the 31-character
/// digest (60 characters in all); and `bcrypt::verify` on the same password
/// and the hash made answers `Ok(true)` (both hash the password with the
/// salt and cost written in the hash). It also fails where the operating
/// system's random source fails, which depends on the machine, so success is
/// not promised.
#[verifier::external_body]
fn bcrypt_hash(password: &str, cost: u32) -> (r: Result<String, bcrypt::BcryptError>)
    ensures
        !(4 <= cost <= 31) ==> r is Err,
        r matches Ok(h) ==> 4 <= cost <= 31 && h@.len() == 60 && h@.subrange(0, 7) == bcrypt_prefix(cost),
        r matches Ok(h) ==> spec_bcrypt_verify(password@, h@) == Some(true),
{
    bcrypt::hash(password, cost)
}

/// `bcrypt::verify`: its answer is the named outcome.
#[verifier::external_body]
fn bcrypt_verify(password: &str, hash: &str) -> (r: Result<bool, bcrypt::BcryptError>)
    ensures
        match r {
            Ok(b) => spec_bcrypt_verify(password@, hash@) == Some(b),
            Err(_) => spec_bcrypt_verify(password@, hash@) is None,
        },
{
    bcrypt::verify(password, hash)
}

/// The bcrypt cost of stored password hashes.
pub const PASSWORD_HASH_COST: u32 = 10;

/// A password could not be hashed, or a stored hash could not be read.
#[derive(Debug, Clone, Copy, PartialEq, Eq, Structural)]
pub struct PasswordError;

/// What the stored hash `hash` says of a password typed as `password`.
/// Passwords are compared upper-cased.
pub open spec fn password_check(password: Seq<char>, hash: Seq<char>) -> Option<bool> {
    spec_bcrypt_verify(spec_to_uppercase(password), hash)
}

/// Hashes a password (upper-cased first) with bcrypt at cost 10. It fails
/// only where bcrypt cannot draw a random salt, which the machine decides.
/// A hash made is a 60-character bcrypt hash of version `2b` and cost 10.
pub fn hash_password(password: &str) -> (r: Result<String, PasswordError>)
    ensures
        r matches Ok(h) ==> h@.len() == 60 && h@.subrange(0, 7) == "$2b$10$"@,
        r matches Ok(h) ==> password_check(password@, h@) == Some(true),
{
    proof {
        reveal_strlit("$2b$10$");
        assert(bcrypt_prefix(PASSWORD_HASH_COST) =~= "$2b$10$"@);
    }
    let upper = to_uppercase(password);
    match bcrypt_hash(upper.as_str(), PASSWORD_HASH_COST) {
        Ok(h) => Ok(h),
        Err(_) => Err(PasswordError),
    }
}

/// Checks a password (upper-cased first) against a stored bcrypt hash.
pub fn verify_password(password: &str, hash: &str) -> (r: Result<bool, PasswordError>)
    ensures
        match password_check(password@, hash@) {
            Some(b) => r == Ok::<bool, PasswordError>(b),
            None => r is Err,
        },
{
    let upper = to_uppercase(password);
    match bcrypt_verify(upper.as_str(), hash) {
        Ok(b) => Ok(b),
        Err(_) => Err(PasswordError),
    }
}

/// A hash made of a password accepts that password again, typed in any
/// letter case that upper-cases to the same text.
pub proof fn law_password_accepts_any_case(password: Seq<char>, typed: Seq<char>, hash: Seq<char>)
    requires
        password_check(password, hash) == Some(true),
        spec_to_uppercase(typed) == spec_to_uppercase(password),
    ensures
        password_check(typed, hash) == Some(true),
{
}


/// `rand::random::<u8>()`: a byte from the thread's generator. Nothing is
/// stated of it.
#[verifier::external_body]
fn random_byte() -> u8 {
    rand::random::<u8>()
}

/// `rand::random::<u64>()`: a number from the thread's generator. Nothing is
/// stated of it.
#[verifier::external_body]
fn random_u64() -> u64 {
    rand::random::<u64>()
}

/// Reset numbers and random environment names are below 10^12.
pub const RESET_NUMBER_MODULUS: u64 = 1_000_000_000_000;

/// Six bytes read as a big-endian unsigned integer.
pub open spec fn big_endian_48(b: Seq<u8>) -> int {
    ((((b[0] * 256 + b[1]) * 256 + b[2]) * 256 + b[3]) * 256 + b[4]) * 256 + b[5]
}

/// The reset number drawn from six random bytes: their big-endian value
/// modulo 10^12, in decimal.
pub fn reset_number_from_bytes(bytes: &Vec<u8>) -> (r: String)
    requires
        bytes@.len() == 6,
    ensures
        r@ == decimal_digits((big_endian_48(bytes@) % 1_000_000_000_000) as nat),
{
    let mut n: u64 = bytes[0] as u64;
    n = n * 256 + bytes[1] as u64;
    n = n * 256 + bytes[2] as u64;
    n = n * 256 + bytes[3] as u64;
    n = n * 256 + bytes[4] as u64;
    n = n * 256 + bytes[5] as u64;
    u64_to_string(n % RESET_NUMBER_MODULUS)
}

/// The decimal digits of some number below 10^12.
pub open spec fn is_drawn_number(s: Seq<char>) -> bool {
    exists|n: nat| n < 1_000_000_000_000 && s == #[trigger] decimal_digits(n)
}

/// A fresh password reset number: decimal digits of a number below 10^12.
pub fn generate_reset_number() -> (r: String)
    ensures
        is_drawn_number(r@),
{
    let mut bytes: Vec<u8> = Vec::new();
    let mut i: usize = 0;
    while i < 6
        invariant
            i <= 6,
            bytes@.len() == i,
        decreases 6 - i,
    {
        bytes.push(random_byte());
        i += 1;
    }
    let r = reset_number_from_bytes(&bytes);
    assert(r@ == decimal_digits((big_endian_48(bytes@) % 1_000_000_000_000) as nat));
    r
}

/// The environment a client is placed in by its lower-cased `Origin`
/// header: `PROD` for a production origin, `DEV` for any other.
pub open spec fn environment_of(origin: Seq<char>, production: Seq<String>) -> Seq<char> {
    if has_text(production, origin) {
        "PROD"@
    } else {
        "DEV"@
    }
}

/// The environment of a client that sent no origin, from a random number:
/// the number modulo 10^12 in decimal, an environment of its own.
pub fn environment_from_random(n: u64) -> (r: String)
    ensures
        r@ == decimal_digits((n % 1_000_000_000_000) as nat),
{
    u64_to_string(n % RESET_NUMBER_MODULUS)
}

/// The environment of a client by its `Origin` header ("" when it sent
/// none).
pub fn account_environment(origin: &str, config: &Config) -> (r: String)
    ensures
        spec_to_lowercase(origin@).len() == 0 ==> is_drawn_number(r@),
        spec_to_lowercase(origin@).len() > 0 ==> r@ == environment_of(
            spec_to_lowercase(origin@),
            config.production_origins@,
        ),
{
    let lower = to_lowercase(origin);
    if crate::text::char_count(lower.as_str()) == 0 {
        let n = random_u64();
        let r = environment_from_random(n);
        assert(r@ == decimal_digits((n % 1_000_000_000_000) as nat));
        return r;
    }
    if contains_str(&config.production_origins, lower.as_str()) {
        to_owned_string("PROD")
    } else {
        to_owned_string("DEV")
    }
}

/// The fields of an account creation request are acceptable: a character
/// name, an account name and a password of the accepted forms, and an email
/// address that is empty or valid, of at most 100 bytes.
pub open spec fn create_request_valid(req: AccountCreateRequest) -> bool {
    &&& spec_is_character_name(req.name@)
    &&& spec_is_account_name(req.account_name@)
    &&& spec_is_account_password(req.password@)
    &&& (req.email@.len() == 0 || spec_is_email_valid(req.email@))
    &&& byte_count(req.email@) <= 100
}

/// Checks the fields of an account creation request.
pub fn account_create_valid(req: &AccountCreateRequest) -> (r: bool)
    ensures
        r == create_request_valid(*req),
{
    is_character_name(req.name.as_str()) && is_account_name(req.account_name.as_str())
        && is_account_password(req.password.as_str()) && (crate::text::char_count(req.email.as_str()) == 0 || is_email_valid(
        req.email.as_str(),
    )) && byte_len(req.email.as_str()) <= 100
}

/// An address may create one more account at `now`: fewer than the daily
/// limit so far and fewer than the hourly limit within the hour before.
pub open spec fn creation_allowed(world: World, ip: Seq<char>, config: Config, now: i64) -> bool {
    &&& world.account_creation_ip@.filter(from_address(ip)).len() < config.max_ip_account_per_day
    &&& world.account_creation_ip@.filter(from_address_since(ip, now - 3_600_000)).len()
        < config.max_ip_account_per_hour
}

/// Admits an account creation from `ip` at `now` if the limits allow it,
/// and records it.
pub fn admit_account_creation(world: &mut World, ip: &str, config: &Config, now: i64) -> (r: bool)
    ensures
        r == creation_allowed(*old(world), ip@, *config, now),
        r ==> final(world).account_creation_ip@.len() == old(world).account_creation_ip@.len() + 1,
        r ==> final(world).account_creation_ip@.drop_last() == old(world).account_creation_ip@,
        r ==> final(world).account_creation_ip@.last().address@ == ip@,
        r ==> final(world).account_creation_ip@.last().time == now,
        !r ==> final(world).account_creation_ip@ == old(world).account_creation_ip@,
        *final(world) == (World { account_creation_ip: final(world).account_creation_ip, ..*old(world) }),
{
    let (total, hour) = world.count_creations_for_ip_at(ip, now);
    if total >= config.max_ip_account_per_day || hour >= config.max_ip_account_per_hour {
        return false;
    }
    world.account_creation_ip.push(AccountCreationRecord { address: to_owned_string(ip), time: now });
    true
}

/// The document stored for a new account.
pub open spec fn new_account_doc_view(
    account_name: Seq<char>,
    email: Seq<char>,
    hash: Seq<char>,
    member_number: i64,
    name: Seq<char>,
    now: i64,
) -> JsonView {
    JsonView::Object(
        seq![
            ("AccountName"@, JsonView::Str(account_name)),
            ("Email"@, JsonView::Str(email)),
            ("Password"@, JsonView::Str(hash)),
            ("MemberNumber"@, JsonView::Number(JsonNumber::Int(member_number))),
            ("Name"@, JsonView::Str(name)),
            ("Money"@, JsonView::Number(JsonNumber::Int(100))),
            ("Creation"@, JsonView::Number(JsonNumber::Int(now))),
            ("LastLogin"@, JsonView::Number(JsonNumber::Int(now))),
            ("Lovership"@, JsonView::Array(Seq::empty())),
            ("ItemPermission"@, JsonView::Number(JsonNumber::Int(2))),
            ("FriendList"@, JsonView::Array(Seq::empty())),
            ("WhiteList"@, JsonView::Array(Seq::empty())),
            ("BlackList"@, JsonView::Array(Seq::empty())),
        ],
    )
}

fn empty_array() -> (r: Json)
    ensures
        r@ == JsonView::Array(Seq::empty()),
{
    let v: Vec<Json> = Vec::new();
    let r = Json::Array(v);
    assert(r@ == JsonView::Array(crate::json::view_items(v@)));
    r
}

fn text_json(s: &str) -> (r: Json)
    ensures
        r@ == JsonView::Str(s@),
{
    Json::Str(to_owned_string(s))
}

/// Builds the document stored for a new account: money 100, item
/// permission 2, empty lists, created and last logged in at `now`.
pub fn new_account_doc(
    account_name: &str,
    email: &str,
    hash: &str,
    member_number: i64,
    name: &str,
    now: i64,
) -> (r: Json)
    ensures
        r@ == new_account_doc_view(account_name@, email@, hash@, member_number, name@, now),
{
    let mut e: Vec<(String, Json)> = Vec::new();
    e.push((to_owned_string("AccountName"), text_json(account_name)));
    e.push((to_owned_string("Email"), text_json(email)));
    e.push((to_owned_string("Password"), text_json(hash)));
    e.push((to_owned_string("MemberNumber"), int_value(member_number)));
    e.push((to_owned_string("Name"), text_json(name)));
    e.push((to_owned_string("Money"), int_value(100)));
    e.push((to_owned_string("Creation"), int_value(now)));
    e.push((to_owned_string("LastLogin"), int_value(now)));
    e.push((to_owned_string("Lovership"), empty_array()));
    e.push((to_owned_string("ItemPermission"), int_value(2)));
    e.push((to_owned_string("FriendList"), empty_array()));
    e.push((to_owned_string("WhiteList"), empty_array()));
    e.push((to_owned_string("BlackList"), empty_array()));
    proof {
        lemma_view_entries(e@);
        assert(view_entries(e@) =~= object_entries(
            new_account_doc_view(account_name@, email@, hash@, member_number, name@, now),
        ));
    }
    Json::Object(e)
}


/// The password hash stored in an account document ("" when it holds none).
pub open spec fn stored_password(doc: JsonView) -> Seq<char> {
    match doc.get_str("Password"@) {
        Some(h) => h,
        None => ""@,
    }
}

/// The login check: the typed password matches the document's stored hash.
/// A hash that cannot be read refuses the login.
pub fn login_password_ok(doc: &Json, password: &str) -> (r: bool)
    ensures
        r == (password_check(password@, stored_password(doc@)) == Some(true)),
{
    let hash = match doc.get_str("Password") {
        Some(h) => h,
        None => "",
    };
    match verify_password(password, hash) {
        Ok(b) => b,
        Err(_) => false,
    }
}

/// Queues a login of `socket_id`. `None` when that socket already has one
/// pending (the request is ignored); otherwise the queue depth after it,
/// which the client is told of once it exceeds 16.
pub fn enter_login_queue(world: &mut World, socket_id: &str) -> (r: Option<usize>)
    ensures
        old(world).login_pending.map().contains_key(socket_id@) ==> r is None && *final(world) == *old(world),
        !old(world).login_pending.map().contains_key(socket_id@) ==> {
            &&& old(world).login_queue_len < usize::MAX ==> r == Some((old(world).login_queue_len + 1) as usize)
            &&& old(world).login_queue_len == usize::MAX ==> r == Some(usize::MAX)
            &&& r == Some(final(world).login_queue_len)
            &&& final(world).login_pending.map() == old(world).login_pending.map().insert(socket_id@, ())
            &&& *final(world) == (World {
                login_pending: final(world).login_pending,
                login_queue_len: final(world).login_queue_len,
                ..*old(world)
            })
        },
{
    if world.login_pending.contains_key(socket_id) {
        return None;
    }
    world.login_pending.insert(to_owned_string(socket_id), ());
    world.login_queue_len = world.login_queue_len.saturating_add(1);
    Some(world.login_queue_len)
}

/// Ends the queued login of `socket_id`, whatever its outcome.
pub fn finish_login_slot(world: &mut World, socket_id: &str)
    ensures
        final(world).login_pending.map() == old(world).login_pending.map().remove(socket_id@),
        final(world).login_queue_len == if old(world).login_queue_len > 0 {
            (old(world).login_queue_len - 1) as usize
        } else {
            0
        },
        *final(world) == (World {
            login_pending: final(world).login_pending,
            login_queue_len: final(world).login_queue_len,
            ..*old(world)
        }),
{
    world.login_pending.remove(socket_id);
    world.login_queue_len = world.login_queue_len.saturating_sub(1);
}

/// Password reset mails are sent at most once per 5 seconds, server-wide.
pub const PASSWORD_RESET_INTERVAL_MS: i64 = 5000;

/// Opens the password reset window at `now`: refused (`RetryLater`) while
/// an earlier request holds it, otherwise held for 5 seconds from now.
pub fn open_reset_window(world: &mut World, now: i64) -> (r: bool)
    requires
        now <= i64::MAX - 5000,
    ensures
        r == (now >= old(world).next_password_reset_at),
        r ==> final(world).next_password_reset_at == now + 5000,
        *final(world) == (World { next_password_reset_at: final(world).next_password_reset_at, ..*old(world) }),
        !r ==> *final(world) == *old(world),
{
    if now < world.next_password_reset_at {
        return false;
    }
    world.next_password_reset_at = now + PASSWORD_RESET_INTERVAL_MS;
    true
}

/// A reset entry as an account name and its reset number.
pub open spec fn reset_entry_view(e: PasswordResetEntry) -> (Seq<char>, Seq<char>) {
    (e.account_name@, e.reset_number@)
}

pub open spec fn resets_view(v: Seq<PasswordResetEntry>) -> Seq<(Seq<char>, Seq<char>)> {
    v.map_values(|e: PasswordResetEntry| reset_entry_view(e))
}

/// Entries of other accounts than `name`.
pub open spec fn not_for(name: Seq<char>) -> spec_fn((Seq<char>, Seq<char>)) -> bool {
    |e: (Seq<char>, Seq<char>)| e.0 != name
}

/// The entries after `name` is given the reset number `number`: its earlier
/// entries go, the new one comes last.
pub open spec fn resets_replaced(
    v: Seq<(Seq<char>, Seq<char>)>,
    name: Seq<char>,
    number: Seq<char>,
) -> Seq<(Seq<char>, Seq<char>)> {
    v.filter(not_for(name)).push((name, number))
}

/// The entries after each account of `pairs`, in order, is given its number.
pub open spec fn resets_after(
    v: Seq<(Seq<char>, Seq<char>)>,
    pairs: Seq<(Seq<char>, Seq<char>)>,
) -> Seq<(Seq<char>, Seq<char>)>
    decreases pairs.len(),
{
    if pairs.len() == 0 {
        v
    } else {
        let last = pairs.last();
        resets_replaced(resets_after(v, pairs.drop_last()), last.0, last.1)
    }
}

fn entries_without(resets: &Vec<PasswordResetEntry>, name: &str) -> (r: Vec<PasswordResetEntry>)
    ensures
        resets_view(r@) == resets_view(resets@).filter(not_for(name@)),
{
    let ghost v = resets_view(resets@);
    let ghost p = not_for(name@);
    let mut kept: Vec<PasswordResetEntry> = Vec::new();
    let mut i: usize = 0;
    while i < resets.len()
        invariant
            i <= resets@.len(),
            v == resets_view(resets@),
            p == not_for(name@),
            resets_view(kept@) == v.take(i as int).filter(p),
        decreases resets@.len() - i,
    {
        proof {
            lemma_filter_take_step(v, p, i as int);
        }
        let e = &resets[i];
        if !str_eq(e.account_name.as_str(), name) {
            let ghost before = kept@;
            kept.push(
                PasswordResetEntry {
                    account_name: to_owned_string(e.account_name.as_str()),
                    reset_number: to_owned_string(e.reset_number.as_str()),
                },
            );
            assert(resets_view(kept@) =~= resets_view(before).push(v[i as int]));
        }
        i += 1;
    }
    assert(v.take(v.len() as int) =~= v);
    kept
}

/// Gives `account_name` the reset number `reset_number`, replacing any
/// number it had.
pub fn replace_reset_entry(resets: &mut Vec<PasswordResetEntry>, account_name: &str, reset_number: &str)
    ensures
        resets_view(final(resets)@) == resets_replaced(resets_view(old(resets)@), account_name@, reset_number@),
{
    let mut kept = entries_without(resets, account_name);
    let ghost before = kept@;
    kept.push(
        PasswordResetEntry {
            account_name: to_owned_string(account_name),
            reset_number: to_owned_string(reset_number),
        },
    );
    assert(resets_view(kept@) =~= resets_view(before).push((account_name@, reset_number@)));
    *resets = kept;
}

/// An account name with its reset number.
pub open spec fn pair_view(p: (String, String)) -> (Seq<char>, Seq<char>) {
    (p.0@, p.1@)
}

pub open spec fn pairs_view(v: Seq<(String, String)>) -> Seq<(Seq<char>, Seq<char>)> {
    v.map_values(|p: (String, String)| pair_view(p))
}

/// Draws a fresh reset number for each account of `names` and records it,
/// replacing earlier ones. Returns each account with its number, in order.
pub fn assign_reset_numbers(world: &mut World, names: &Vec<String>) -> (r: Vec<(String, String)>)
    ensures
        r@.len() == names@.len(),
        forall|i: int| 0 <= i < names@.len() ==> #[trigger] r@[i].0@ == names@[i]@,
        forall|i: int| 0 <= i < names@.len() ==> is_drawn_number(#[trigger] r@[i].1@),
        resets_view(final(world).password_resets@) == resets_after(
            resets_view(old(world).password_resets@),
            pairs_view(r@),
        ),
        *final(world) == (World { password_resets: final(world).password_resets, ..*old(world) }),
{
    let ghost start = resets_view(world.password_resets@);
    let mut pairs: Vec<(String, String)> = Vec::new();
    let mut i: usize = 0;
    while i < names.len()
        invariant
            i <= names@.len(),
            pairs@.len() == i,
            forall|j: int| 0 <= j < i ==> #[trigger] pairs@[j].0@ == names@[j]@,
            forall|j: int| 0 <= j < i ==> is_drawn_number(#[trigger] pairs@[j].1@),
            resets_view(world.password_resets@) == resets_after(start, pairs_view(pairs@)),
            *world == (World { password_resets: world.password_resets, ..*old(world) }),
        decreases names@.len() - i,
    {
        let number = generate_reset_number();
        replace_reset_entry(&mut world.password_resets, names[i].as_str(), number.as_str());
        let ghost before = pairs@;
        pairs.push((to_owned_string(names[i].as_str()), number));
        proof {
            assert(pairs_view(pairs@).drop_last() =~= pairs_view(before));
            assert(pairs@[i as int].1@ == number@);
        }
        i += 1;
    }
    pairs
}

/// Some entry gives `name` the number `number`.
pub fn reset_entry_matches(world: &World, name: &str, number: &str) -> (r: bool)
    ensures
        r == resets_view(world.password_resets@).contains((name@, number@)),
{
    let ghost v = resets_view(world.password_resets@);
    let mut i: usize = 0;
    while i < world.password_resets.len()
        invariant
            i <= world.password_resets@.len(),
            v == resets_view(world.password_resets@),
            forall|j: int| 0 <= j < i ==> #[trigger] v[j] != (name@, number@),
        decreases world.password_resets@.len() - i,
    {
        let e = &world.password_resets[i];
        if str_eq(e.account_name.as_str(), name) && str_eq(e.reset_number.as_str(), number) {
            assert(v[i as int] == (name@, number@));
            return true;
        }
        i += 1;
    }
    false
}

/// A password reset may go ahead: the account name and the new password
/// have the accepted forms and the account holds that reset number. The
/// account name is compared as sent.
pub open spec fn reset_process_allowed(world: World, req: PasswordResetProcessRequest) -> bool {
    &&& spec_is_account_name(req.account_name@)
    &&& spec_is_account_password(req.new_password@)
    &&& resets_view(world.password_resets@).contains((req.account_name@, req.reset_number@))
}

/// Checks a password reset request.
pub fn reset_process_check(world: &World, req: &PasswordResetProcessRequest) -> (r: bool)
    ensures
        r == reset_process_allowed(*world, *req),
{
    is_account_name(req.account_name.as_str()) && is_account_password(req.new_password.as_str())
        && reset_entry_matches(world, req.account_name.as_str(), req.reset_number.as_str())
}

/// Forgets the reset numbers of an account once its password was reset.
pub fn clear_reset_entries(world: &mut World, account_name: &str)
    ensures
        resets_view(final(world).password_resets@) == resets_view(old(world).password_resets@).filter(
            not_for(account_name@),
        ),
        *final(world) == (World { password_resets: final(world).password_resets, ..*old(world) }),
{
    let kept = entries_without(&world.password_resets, account_name);
    world.password_resets = kept;
}


/// A reset number just given to an account is accepted for it, and any
/// other number it held before is not.
pub proof fn law_reset_number_replaces_earlier(
    v: Seq<(Seq<char>, Seq<char>)>,
    name: Seq<char>,
    number: Seq<char>,
    other: Seq<char>,
)
    requires
        other != number,
    ensures
        resets_replaced(v, name, number).contains((name, number)),
        !resets_replaced(v, name, number).contains((name, other)),
{
    let w = resets_replaced(v, name, number);
    assert(w[w.len() - 1] == (name, number));
    if w.contains((name, other)) {
        let i = choose|i: int| 0 <= i < w.len() && w[i] == (name, other);
        let f = v.filter(not_for(name));
        assert(i < f.len());
        assert(not_for(name)(f[i]));
    }
}

/// Once an account's reset numbers are cleared, none is accepted for it.
pub proof fn law_cleared_reset_refused(v: Seq<(Seq<char>, Seq<char>)>, name: Seq<char>, number: Seq<char>)
    ensures
        !v.filter(not_for(name)).contains((name, number)),
{
    let f = v.filter(not_for(name));
    if f.contains((name, number)) {
        let i = choose|i: int| 0 <= i < f.len() && f[i] == (name, number);
        assert(not_for(name)(f[i]));
    }
}


/// A password reset cannot be replayed: once the reset numbers of the
/// request's account are cleared (what follows a successful reset), the same
/// request is refused.
pub proof fn law_reset_not_replayable(before: World, after: World, req: PasswordResetProcessRequest)
    requires
        resets_view(after.password_resets@) == resets_view(before.password_resets@).filter(
            not_for(req.account_name@),
        ),
    ensures
        !reset_process_allowed(after, req),
{
    law_cleared_reset_refused(resets_view(before.password_resets@), req.account_name@, req.reset_number@);
}

/// A new email address is acceptable when empty or valid.
pub fn new_email_acceptable(email_new: &str) -> (r: bool)
    ensures
        r == (email_new@.len() == 0 || spec_is_email_valid(email_new@)),
{
    crate::text::char_count(email_new) == 0 || is_email_valid(email_new)
}

/// The address an email change names as the old one matches the stored one
/// (both trimmed, then lower-cased); an account without an address may set
/// one whatever it names.
pub fn email_change_allowed(current: &str, email_old: &str) -> (r: bool)
    ensures
        r == (current@.len() == 0 || spec_to_lowercase(crate::text::spec_trim(current@)) == spec_to_lowercase(
            crate::text::spec_trim(email_old@),
        )),
{
    if crate::text::char_count(current) == 0 {
        return true;
    }
    let a = to_lowercase(crate::text::trim(current).as_str());
    let b = to_lowercase(crate::text::trim(email_old).as_str());
    str_eq(a.as_str(), b.as_str())
}

} // verus!
