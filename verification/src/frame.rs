//! The frames that a log session sends outward.

use vstd::prelude::*;

verus! {

/// The output stream of the process that a line or a chunk came from.
#[derive(Clone, Copy, Debug, PartialEq, Eq, Structural)]
pub enum Channel {
    Stdout,
    Stderr,
}

/// One completed line of process output, tagged with its stream.
#[derive(Clone, Debug, PartialEq, Eq)]
pub struct LogFrame {
    pub channel: Channel,
    pub content: String,
}

/// The compact JSON text of an object with two members, both JSON strings:
/// `first_key` with `first_value`, and `second_key` with `second_value`.
pub uninterp spec fn json_object_text(
    first_key: Seq<char>,
    first_value: Seq<char>,
    second_key: Seq<char>,
    second_value: Seq<char>,
) -> Seq<char>;

/// Puts two text members into a `serde_json::Map` with `Map::insert`, wraps it
/// as `serde_json::Value::Object` and prints it through the `Display` of
/// `Value`, which writes compact JSON. The result is only given a name.
#[verifier::external_body]
fn object_text(first_key: &str, first_value: &str, second_key: &str, second_value: &str) -> (text:
    String)
    ensures
        text@ == json_object_text(first_key@, first_value@, second_key@, second_value@),
{
    let mut members = serde_json::Map::new();
    members.insert(first_key.to_owned(), serde_json::Value::String(first_value.to_owned()));
    members.insert(second_key.to_owned(), serde_json::Value::String(second_value.to_owned()));
    serde_json::Value::Object(members).to_string()
}

/// The tag under which a stream appears in a frame.
pub open spec fn channel_label(channel: Channel) -> Seq<char> {
    match channel {
        Channel::Stdout => "stdout"@,
        Channel::Stderr => "stderr"@,
    }
}

/// The text frame for one line: a JSON object with the members `channel` and
/// `content`.
pub open spec fn log_frame_text(channel: Channel, content: Seq<char>) -> Seq<char> {
    json_object_text("channel"@, channel_label(channel), "content"@, content)
}

impl Channel {
    pub fn label(&self) -> (label: &'static str)
        ensures
            label@ == channel_label(*self),
    {
        match self {
            Channel::Stdout => "stdout",
            Channel::Stderr => "stderr",
        }
    }
}

impl LogFrame {
    /// The text that is sent for this frame.
    pub fn payload(&self) -> (text: String)
        ensures
            text@ == log_frame_text(self.channel, self.content@),
    {
        object_text("channel", self.channel.label(), "content", self.content.as_str())
    }
}

} // verus!
