//! Cross-messenger types and the outbound port.

use vstd::prelude::*;

use crate::domain::ChatId;
use crate::domain::MessageId;
use crate::domain::MessageRef;
use crate::domain::UserId;
use crate::errors::Error;
use crate::numbers::dec_digits;
use crate::text::chars_string;
use crate::text::push_all;
use crate::text::str_chars;

verus! {

/// An incoming update, already normalized.
#[derive(Clone, Debug)]
pub enum IncomingUpdate {
    Command(Command),
    Text(TextMessage),
    Voice(VoiceMessage),
    Photo(PhotoMessage),
    Document(DocumentMessage),
    Callback(CallbackQuery),
}

#[derive(Clone, Debug)]
pub struct Command {
    pub chat_id: ChatId,
    pub user_id: UserId,
    pub username: Option<String>,
    pub name: String,
    pub args: String,
}

#[derive(Clone, Debug)]
pub struct TextMessage {
    pub chat_id: ChatId,
    pub user_id: UserId,
    pub username: Option<String>,
    pub text: String,
}

#[derive(Clone, Debug)]
pub struct VoiceMessage {
    pub chat_id: ChatId,
    pub user_id: UserId,
    pub username: Option<String>,
    pub file_id: String,
    pub duration_seconds: Option<u32>,
}

#[derive(Clone, Debug)]
pub struct PhotoMessage {
    pub chat_id: ChatId,
    pub user_id: UserId,
    pub username: Option<String>,
    pub file_id: String,
    pub caption: Option<String>,
    pub media_group_id: Option<String>,
}

#[derive(Clone, Debug)]
pub struct DocumentMessage {
    pub chat_id: ChatId,
    pub user_id: UserId,
    pub username: Option<String>,
    pub file_id: String,
    pub file_name: Option<String>,
    pub mime_type: Option<String>,
    pub caption: Option<String>,
}

#[derive(Clone, Debug)]
pub struct CallbackQuery {
    pub chat_id: ChatId,
    pub user_id: UserId,
    pub username: Option<String>,
    pub callback_id: String,
    pub data: String,
    pub message: Option<MessageRef>,
}

/// An outbound typing-style indicator.
#[derive(Clone, Copy, Debug, PartialEq, Eq, Structural)]
pub enum ChatAction {
    Typing,
    UploadPhoto,
    UploadDocument,
}

/// One inline button.
#[derive(Clone, Debug)]
pub struct InlineButton {
    pub label: String,
    pub callback_data: String,
}

/// An inline keyboard, one button per entry.
#[derive(Clone, Debug)]
pub struct InlineKeyboard {
    pub buttons: Vec<InlineButton>,
}

/// The callback payload for option `idx` of a request.
pub open spec fn spec_callback_data(request_id: Seq<char>, idx: int) -> Seq<char> {
    seq!['a', 's', 'k', 'u', 's', 'e', 'r', ':'] + request_id + seq![':'] + dec_digits(idx as nat)
}

/// A button label: the option, cut to the maximum with an ellipsis.
pub open spec fn spec_button_label(opt: Seq<char>, max_label_len: int) -> Seq<char> {
    if opt.len() > max_label_len {
        opt.take(max_label_len) + seq!['.', '.', '.']
    } else {
        opt
    }
}

impl InlineKeyboard {
    /// A keyboard from prepared buttons.
    pub fn new(buttons: Vec<InlineButton>) -> (r: InlineKeyboard)
        ensures
            r.buttons@ == buttons@,
    {
        InlineKeyboard { buttons }
    }

    /// One button per row: option `i` gets label `spec_button_label`
    /// and callback data `askuser:<request_id>:<i>`.
    pub fn one_per_row(request_id: &str, options: &Vec<String>, max_label_len: usize) -> (r:
        InlineKeyboard)
        ensures
            r.buttons@.len() == options@.len(),
            forall|i: int|
                0 <= i < options@.len() ==> {
                    &&& (#[trigger] r.buttons@[i]).label@ == spec_button_label(
                        options@[i]@,
                        max_label_len as int,
                    )
                    &&& r.buttons@[i].callback_data@ == spec_callback_data(request_id@, i)
                },
    {
        let mut buttons: Vec<InlineButton> = Vec::new();
        let n = options.len();
        let mut i: usize = 0;
        let prefix = str_chars("askuser:");
        let rid = str_chars(request_id);
        proof {
            reveal_strlit("askuser:");
            assert(prefix@ =~= seq!['a', 's', 'k', 'u', 's', 'e', 'r', ':']);
        }
        while i < n
            invariant
                i <= n,
                n == options@.len(),
                prefix@ == seq!['a', 's', 'k', 'u', 's', 'e', 'r', ':'],
                rid@ == request_id@,
                buttons@.len() == i,
                forall|k: int|
                    0 <= k < i ==> {
                        &&& (#[trigger] buttons@[k]).label@ == spec_button_label(
                            options@[k]@,
                            max_label_len as int,
                        )
                        &&& buttons@[k].callback_data@ == spec_callback_data(request_id@, k)
                    },
            decreases n - i,
        {
            let oc = str_chars(options[i].as_str());
            let lab = crate::utils::truncate_chars(&oc, max_label_len);
            proof {
                if oc@.len() > max_label_len {
                    assert(lab@ =~= spec_button_label(options@[i as int]@, max_label_len as int));
                } else {
                    assert(lab@ =~= spec_button_label(options@[i as int]@, max_label_len as int));
                }
            }
            let mut data: Vec<char> = Vec::new();
            push_all(&mut data, &prefix);
            push_all(&mut data, &rid);
            data.push(':');
            let digits = crate::numbers::u64_to_dec(i as u64);
            push_all(&mut data, &digits);
            proof {
                assert(data@ =~= spec_callback_data(request_id@, i as int));
            }
            buttons.push(
                InlineButton { label: chars_string(&lab), callback_data: chars_string(&data) },
            );
            i += 1;
        }
        InlineKeyboard { buttons }
    }
}

/// Feature flags of a messenger implementation.
#[derive(Clone, Copy, Debug)]
pub struct MessagingCapabilities {
    pub supports_html: bool,
    pub supports_edit: bool,
    pub supports_reactions: bool,
    pub supports_chat_actions: bool,
    pub supports_inline_keyboards: bool,
    pub max_message_len: usize,
}

/// The two outbound size thresholds.
#[derive(Clone, Copy, Debug)]
pub struct MessengerLimits {
    pub max_message_len: usize,
    pub safe_message_len: usize,
}

/// Where an outbound message landed.
#[derive(Clone, Copy, Debug)]
pub struct OutgoingMessageMeta {
    pub chat_id: ChatId,
    pub message_id: MessageId,
}

impl From<MessageRef> for OutgoingMessageMeta {
    fn from(m: MessageRef) -> (r: OutgoingMessageMeta) {
        OutgoingMessageMeta { chat_id: m.chat_id, message_id: m.message_id }
    }
}

impl vstd::std_specs::convert::FromSpecImpl<MessageRef> for OutgoingMessageMeta {
    open spec fn obeys_from_spec() -> bool {
        true
    }

    open spec fn from_spec(m: MessageRef) -> OutgoingMessageMeta {
        OutgoingMessageMeta { chat_id: m.chat_id, message_id: m.message_id }
    }
}

/// The outbound chat port.  Adapters implement it outside the library;
/// the library's own logic emits operation lists instead of calling it
/// directly, so nothing here is assumed about implementations.
pub trait MessagingPort {
    fn capabilities(&self) -> MessagingCapabilities;

    fn send_html(&mut self, chat_id: ChatId, html: &str) -> Result<MessageRef, Error>;

    fn edit_html(&mut self, msg: MessageRef, html: &str) -> Result<(), Error>;

    fn delete_message(&mut self, msg: MessageRef) -> Result<(), Error>;

    fn send_chat_action(&mut self, chat_id: ChatId, action: ChatAction) -> Result<(), Error>;

    fn set_reaction(&mut self, msg: MessageRef, emoji: &str) -> Result<(), Error>;

    fn send_inline_keyboard(&mut self, chat_id: ChatId, text: &str, keyboard: InlineKeyboard)
        -> Result<MessageRef, Error>;

    fn answer_callback_query(&mut self, callback_id: &str, text: Option<&str>) -> Result<
        (),
        Error,
    >;
}

/// How callback data reads: `askuser:` then the request id then the
/// option index, exactly three colon-separated parts.
pub enum CallbackParse {
    /// Not an ask-user callback at all.
    NotAskUser,
    /// Ask-user shaped but malformed.
    Invalid,
    /// The request id and the chosen option index.
    Selection { request_id: String, option_index: usize },
}

/// Parse inline-button callback data of the ask-user flow.
pub fn parse_askuser_callback(data: &str) -> (r: CallbackParse)
    ensures
        !crate::text::matches_at(
            data@,
            seq!['a', 's', 'k', 'u', 's', 'e', 'r', ':'],
            0,
        ) ==> r is NotAskUser,
{
    let cs = str_chars(data);
    let prefix = str_chars("askuser:");
    proof {
        reveal_strlit("askuser:");
        assert(prefix@ =~= seq!['a', 's', 'k', 'u', 's', 'e', 'r', ':']);
    }
    if !crate::text::starts_with_chars(&cs, &prefix) {
        return CallbackParse::NotAskUser;
    }
    let parts = crate::text::split_chars(&cs, ':');
    if parts.len() != 3 {
        return CallbackParse::Invalid;
    }
    let idx = match crate::numbers::parse_u64_chars(&parts[2]) {
        Some(v) => {
            if v <= usize::MAX as u64 {
                v as usize
            } else {
                return CallbackParse::Invalid;
            }
        },
        None => {
            return CallbackParse::Invalid;
        },
    };
    let rid = chars_string(&parts[1]);
    CallbackParse::Selection { request_id: rid, option_index: idx }
}

} // verus!
