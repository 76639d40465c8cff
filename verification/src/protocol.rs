//! Wire messages exchanged with the client.

use vstd::prelude::*;
use crate::json::{Json, JsonView, JsonNumber, object_entries, view_entries, lemma_view_entries, int_value, str_value};

verus! {

/// A required text field.
pub open spec fn text_field(data: JsonView, k: Seq<char>) -> Option<Seq<char>> {
    data.get_str(k)
}

fn take_text(data: &Json, k: &str) -> (r: Option<String>)
    ensures
        match data@.get_str(k@) {
            Some(s) => r matches Some(x) && x@ == s,
            None => r is None,
        },
{
    match data.get_str(k) {
        Some(s) => Some(crate::text::to_owned_string(s)),
        None => None,
    }
}

/// `AccountLogin`: an account name and a password.
pub struct AccountLoginRequest {
    pub account_name: String,
    pub password: String,
}

impl AccountLoginRequest {
    /// Reads the request; none unless both fields are texts.
    pub fn from_json(data: &Json) -> (r: Option<AccountLoginRequest>)
        ensures
            match (data@.get_str("AccountName"@), data@.get_str("Password"@)) {
                (Some(a), Some(p)) => r matches Some(x) && x.account_name@ == a && x.password@ == p,
                _ => r is None,
            },
    {
        match (take_text(data, "AccountName"), take_text(data, "Password")) {
            (Some(account_name), Some(password)) => Some(AccountLoginRequest { account_name, password }),
            _ => None,
        }
    }
}

/// `AccountCreate`: a character name, an account name, a password and an
/// email address.
pub struct AccountCreateRequest {
    pub name: String,
    pub account_name: String,
    pub password: String,
    pub email: String,
}

impl AccountCreateRequest {
    /// Reads the request; none unless all four fields are texts.
    pub fn from_json(data: &Json) -> (r: Option<AccountCreateRequest>)
        ensures
            match (
                data@.get_str("Name"@),
                data@.get_str("AccountName"@),
                data@.get_str("Password"@),
                data@.get_str("Email"@),
            ) {
                (Some(n), Some(a), Some(p), Some(e)) => r matches Some(x) && x.name@ == n && x.account_name@ == a
                    && x.password@ == p && x.email@ == e,
                _ => r is None,
            },
    {
        match (take_text(data, "Name"), take_text(data, "AccountName"), take_text(data, "Password"), take_text(data, "Email")) {
            (Some(name), Some(account_name), Some(password), Some(email)) => Some(
                AccountCreateRequest { name, account_name, password, email },
            ),
            _ => None,
        }
    }
}

/// `PasswordResetProcess`: an account name, the reset number mailed and the
/// new password.
pub struct PasswordResetProcessRequest {
    pub account_name: String,
    pub reset_number: String,
    pub new_password: String,
}

impl PasswordResetProcessRequest {
    /// Reads the request; none unless all three fields are texts.
    pub fn from_json(data: &Json) -> (r: Option<PasswordResetProcessRequest>)
        ensures
            match (data@.get_str("AccountName"@), data@.get_str("ResetNumber"@), data@.get_str("NewPassword"@)) {
                (Some(a), Some(n), Some(p)) => r matches Some(x) && x.account_name@ == a && x.reset_number@ == n
                    && x.new_password@ == p,
                _ => r is None,
            },
    {
        match (take_text(data, "AccountName"), take_text(data, "ResetNumber"), take_text(data, "NewPassword")) {
            (Some(account_name), Some(reset_number), Some(new_password)) => Some(
                PasswordResetProcessRequest { account_name, reset_number, new_password },
            ),
            _ => None,
        }
    }
}

/// `AccountUpdateEmail`: the current and the new address.
pub struct AccountUpdateEmailRequest {
    pub email_old: String,
    pub email_new: String,
}

impl AccountUpdateEmailRequest {
    /// Reads the request; none unless both fields are texts.
    pub fn from_json(data: &Json) -> (r: Option<AccountUpdateEmailRequest>)
        ensures
            match (data@.get_str("EmailOld"@), data@.get_str("EmailNew"@)) {
                (Some(o), Some(n)) => r matches Some(x) && x.email_old@ == o && x.email_new@ == n,
                _ => r is None,
            },
    {
        match (take_text(data, "EmailOld"), take_text(data, "EmailNew")) {
            (Some(email_old), Some(email_new)) => Some(AccountUpdateEmailRequest { email_old, email_new }),
            _ => None,
        }
    }
}

/// `ChatRoomJoin`: the name of the room.
pub struct ChatRoomJoinRequest {
    pub name: String,
}

impl ChatRoomJoinRequest {
    /// Reads the request; none unless `Name` is a text.
    pub fn from_json(data: &Json) -> (r: Option<ChatRoomJoinRequest>)
        ensures
            match data@.get_str("Name"@) {
                Some(n) => r matches Some(x) && x.name@ == n,
                None => r is None,
            },
    {
        match take_text(data, "Name") {
            Some(name) => Some(ChatRoomJoinRequest { name }),
            None => None,
        }
    }
}

/// `ServerInfo`: the time and the number of players online.
pub struct ServerInfoMessage {
    pub time: i64,
    pub online_players: usize,
}

impl ServerInfoMessage {
    pub open spec fn spec_to_json(self) -> JsonView {
        JsonView::Object(
            seq![
                ("Time"@, JsonView::Number(JsonNumber::Int(self.time))),
                ("OnlinePlayers"@, JsonView::Number(
                    if self.online_players <= i64::MAX {
                        JsonNumber::Int(self.online_players as i64)
                    } else {
                        JsonNumber::Big(self.online_players as u64)
                    },
                )),
            ],
        )
    }

    /// The message as sent.
    pub fn to_json(&self) -> (r: Json)
        ensures
            r@ == self.spec_to_json(),
    {
        let n = self.online_players as u64;
        let count = if n <= 9223372036854775807 {
            Json::Number(JsonNumber::Int(n as i64))
        } else {
            Json::Number(JsonNumber::Big(n))
        };
        let mut e: Vec<(String, Json)> = Vec::new();
        e.push((crate::text::to_owned_string("Time"), int_value(self.time)));
        e.push((crate::text::to_owned_string("OnlinePlayers"), count));
        proof {
            lemma_view_entries(e@);
            assert(view_entries(e@) =~= object_entries(self.spec_to_json()));
        }
        Json::Object(e)
    }
}

/// The answer to a successful account creation.
pub struct AccountCreateSuccess {
    pub server_answer: &'static str,
    pub online_id: String,
    pub member_number: i64,
}

impl AccountCreateSuccess {
    pub open spec fn spec_to_json(self) -> JsonView {
        JsonView::Object(
            seq![
                ("ServerAnswer"@, JsonView::Str(self.server_answer@)),
                ("OnlineID"@, JsonView::Str(self.online_id@)),
                ("MemberNumber"@, JsonView::Number(JsonNumber::Int(self.member_number))),
            ],
        )
    }

    /// The answer as sent.
    pub fn to_json(&self) -> (r: Json)
        ensures
            r@ == self.spec_to_json(),
    {
        let mut e: Vec<(String, Json)> = Vec::new();
        e.push((crate::text::to_owned_string("ServerAnswer"), str_value(self.server_answer)));
        e.push((crate::text::to_owned_string("OnlineID"), Json::Str(self.online_id.clone())));
        e.push((crate::text::to_owned_string("MemberNumber"), int_value(self.member_number)));
        proof {
            lemma_view_entries(e@);
            assert(view_entries(e@) =~= object_entries(self.spec_to_json()));
        }
        Json::Object(e)
    }
}


/// An optional integer field: absent or null reads as none, an integer in
/// the `i64` range as that integer; any other value makes the request
/// unreadable (the outer `None`).
pub open spec fn opt_int_field(data: JsonView, k: Seq<char>) -> Option<Option<i64>> {
    match data.get(k) {
        None => Some(None),
        Some(JsonView::Null) => Some(None),
        Some(JsonView::Number(JsonNumber::Int(n))) => Some(Some(n)),
        Some(_) => None,
    }
}

/// An optional text field: absent or null reads as none, a text as that
/// text; any other value makes the request unreadable.
pub open spec fn opt_text_field(data: JsonView, k: Seq<char>) -> Option<Option<Seq<char>>> {
    match data.get(k) {
        None => Some(None),
        Some(JsonView::Null) => Some(None),
        Some(JsonView::Str(s)) => Some(Some(s)),
        Some(_) => None,
    }
}

pub open spec fn opt_string_view(o: Option<String>) -> Option<Seq<char>> {
    match o {
        Some(s) => Some(s@),
        None => None,
    }
}

fn opt_int(data: &Json, k: &str) -> (r: Option<Option<i64>>)
    ensures
        r == opt_int_field(data@, k@),
{
    match data.get(k) {
        None => Some(None),
        Some(Json::Null) => Some(None),
        Some(Json::Number(JsonNumber::Int(n))) => Some(Some(*n)),
        Some(_) => None,
    }
}

fn opt_text(data: &Json, k: &str) -> (r: Option<Option<String>>)
    ensures
        match opt_text_field(data@, k@) {
            None => r is None,
            Some(o) => r matches Some(x) && opt_string_view(x) == o,
        },
{
    match data.get(k) {
        None => Some(None),
        Some(Json::Null) => Some(None),
        Some(Json::Str(s)) => Some(Some(crate::text::to_owned_string(s.as_str()))),
        Some(_) => None,
    }
}

/// `AccountBeep`: a beep to a member, of a type, with a message, possibly
/// secret (hiding the sender's room).
pub struct AccountBeepRequest {
    pub member_number: Option<i64>,
    pub beep_type: Option<String>,
    pub message: Option<String>,
    pub is_secret: bool,
}

impl AccountBeepRequest {
    /// Reads the request: an object whose `MemberNumber`, `BeepType` and
    /// `Message` are each absent, null or of their type; `IsSecret` counts
    /// only when it is `true`.
    pub fn from_json(data: &Json) -> (r: Option<AccountBeepRequest>)
        ensures
            match (data@, opt_int_field(data@, "MemberNumber"@), opt_text_field(data@, "BeepType"@), opt_text_field(
                data@,
                "Message"@,
            )) {
                (JsonView::Object(_), Some(m), Some(b), Some(t)) => r matches Some(x) && x.member_number == m
                    && opt_string_view(x.beep_type) == b && opt_string_view(x.message) == t && x.is_secret == (
                data@.get_bool("IsSecret"@) == Some(true)),
                _ => r is None,
            },
    {
        if !data.is_object() {
            return None;
        }
        let member_number = match opt_int(data, "MemberNumber") {
            Some(m) => m,
            None => return None,
        };
        let beep_type = match opt_text(data, "BeepType") {
            Some(b) => b,
            None => return None,
        };
        let message = match opt_text(data, "Message") {
            Some(t) => t,
            None => return None,
        };
        let is_secret = data.get_bool("IsSecret") == Some(true);
        Some(AccountBeepRequest { member_number, beep_type, message, is_secret })
    }
}

/// `AccountQuery`: the query's name and the rest of the request.
pub struct AccountQueryRequest {
    pub query: String,
    pub extra: Json,
}

impl AccountQueryRequest {
    /// Reads the request; none unless `Query` is a text.
    pub fn from_json(data: &Json) -> (r: Option<AccountQueryRequest>)
        ensures
            match data@.get_str("Query"@) {
                Some(q) => r matches Some(x) && x.query@ == q && x.extra@ == data@,
                None => r is None,
            },
    {
        match take_text(data, "Query") {
            Some(query) => Some(AccountQueryRequest { query, extra: data.deep_clone() }),
            None => None,
        }
    }
}

/// The answer to an account query.
pub struct AccountQueryResult {
    pub query: String,
    pub result: Json,
}

impl AccountQueryResult {
    pub open spec fn spec_to_json(self) -> JsonView {
        JsonView::Object(seq![("Query"@, JsonView::Str(self.query@)), ("Result"@, self.result@)])
    }

    /// The answer as sent.
    pub fn to_json(&self) -> (r: Json)
        ensures
            r@ == self.spec_to_json(),
    {
        let mut e: Vec<(String, Json)> = Vec::new();
        e.push((crate::text::to_owned_string("Query"), str_value(self.query.as_str())));
        e.push((crate::text::to_owned_string("Result"), self.result.deep_clone()));
        proof {
            lemma_view_entries(e@);
            assert(view_entries(e@) =~= object_entries(self.spec_to_json()));
        }
        Json::Object(e)
    }
}


/// An optional value: absent or null reads as none.
pub open spec fn opt_value_field(data: JsonView, k: Seq<char>) -> Option<JsonView> {
    match data.get(k) {
        None => None,
        Some(JsonView::Null) => None,
        Some(v) => Some(v),
    }
}

pub open spec fn opt_json_view(o: Option<Json>) -> Option<JsonView> {
    match o {
        Some(j) => Some(j@),
        None => None,
    }
}

/// `ChatRoomChat`: a message's content, type, whisper target and
/// dictionary.
pub struct ChatRoomMessage {
    pub content: Option<String>,
    pub msg_type: Option<String>,
    pub target: Option<i64>,
    pub dictionary: Option<Json>,
}

impl ChatRoomMessage {
    /// Reads the message: an object whose `Content` and `Type` are absent,
    /// null or texts and whose `Target` is absent, null or an integer.
    pub fn from_json(data: &Json) -> (r: Option<ChatRoomMessage>)
        ensures
            match (data@, opt_text_field(data@, "Content"@), opt_text_field(data@, "Type"@), opt_int_field(
                data@,
                "Target"@,
            )) {
                (JsonView::Object(_), Some(c), Some(t), Some(g)) => r matches Some(x) && opt_string_view(x.content)
                    == c && opt_string_view(x.msg_type) == t && x.target == g && opt_json_view(x.dictionary)
                    == opt_value_field(data@, "Dictionary"@),
                _ => r is None,
            },
    {
        if !data.is_object() {
            return None;
        }
        let content = match opt_text(data, "Content") {
            Some(c) => c,
            None => return None,
        };
        let msg_type = match opt_text(data, "Type") {
            Some(t) => t,
            None => return None,
        };
        let target = match opt_int(data, "Target") {
            Some(t) => t,
            None => return None,
        };
        let dictionary = match data.get("Dictionary") {
            None => None,
            Some(Json::Null) => None,
            Some(v) => Some(v.deep_clone()),
        };
        Some(ChatRoomMessage { content, msg_type, target, dictionary })
    }
}

} // verus!
