use std::sync::Arc;
use vstd::prelude::*;

use crate::config::Config;
use crate::filters::{admin_sent, sent_by_admin, MessageInfo};

use crate::util::{hiss_spec, hiss_text};
use crate::text::{
    chars_of, decimal, decimal_text, lemma_split_spaces_nonempty, parse_u16, split_spaces,
    split_words, string_of, u16_parse_error, unsigned_literal,
};

verus! {

/// The commands every user may give.
#[derive(Clone, Copy, Debug, PartialEq, Eq)]
pub enum Command {
    /// Display the list of commands.
    Help,
    /// Send a (random) opossum; an image number may follow.
    Opossum,
    /// Send a (random) hiss; an image number may follow.
    Hiss,
}

/// The commands of the admins.
#[allow(non_camel_case_types)]
#[derive(Clone, Copy, Debug, PartialEq, Eq)]
pub enum AdminCommand {
    /// Ban an image.
    Ban,
    /// Get the list of banned images.
    Get_Banned,
    /// Do something magical: send a special picture.
    Magic,
}

/// The two kinds of picture a user command asks for.
#[derive(Clone, Copy, Debug, PartialEq, Eq)]
pub enum ImageKind {
    Opossum,
    Hiss,
}

/// A text message to send back to the chat.
#[derive(Debug)]
pub struct Reply {
    pub text: String,
    /// The text is written in Telegram's MarkdownV2.
    pub markdown: bool,
    /// The message answers the user's message.
    pub reply_to_message: bool,
}

/// What the bot does in answer to a user command.
#[derive(Debug)]
pub enum Answer {
    /// Send the list of commands.
    Help,
    /// Send a random picture of this kind.
    Random(ImageKind),
    /// Send the picture with this number, taken from the directory of its
    /// kind (`picture_dir`), or `missing_image_reply` when there is none.
    Specific(ImageKind, u16),
    /// Send this text.
    Send(Reply),
}

/// What the bot does in answer to an admin command.
#[derive(Debug)]
pub enum AdminAnswer {
    /// Send this text.
    Send(Reply),
    /// Put the image with this number on the ban list, then send `ban_reply`.
    Ban(u16),
    /// Read the ban list, then send `banned_list_reply`.
    ListBanned,
    /// Send a random special picture.
    RandomSpecial,
    /// Do nothing: the sender is no admin.
    Ignore,
}

/// The argument after a command, read as an image number: the number, or
/// the text of the parse error.
pub open spec fn number_arg(arg: Seq<char>) -> Result<u16, Seq<char>> {
    match unsigned_literal(arg) {
        Some(v) => if v <= u16::MAX {
            Ok(v as u16)
        } else {
            Err(u16_parse_error(arg))
        },
        None => Err(u16_parse_error(arg)),
    }
}

/// The reply to an argument that is no image number.
pub open spec fn come_again(err: Seq<char>) -> Seq<char> {
    "Come again?\n\"`"@ + err + "`\""@
}

/// `r` is the markdown answer to the message that says `text`.
pub open spec fn is_markdown_answer(r: Reply, text: Seq<char>) -> bool {
    r.text@ == text && r.markdown && r.reply_to_message
}

/// The answer to an image command with the words `args`: a random picture
/// when no argument follows, else the picture with the given number, or the
/// parse error.
pub open spec fn image_answer(a: Answer, kind: ImageKind, args: Seq<Seq<char>>) -> bool {
    if args.len() == 1 {
        a == Answer::Random(kind)
    } else {
        match number_arg(args[1]) {
            Ok(n) => a == Answer::Specific(kind, n),
            Err(e) => a matches Answer::Send(r) && is_markdown_answer(r, come_again(e)),
        }
    }
}

/// A markdown answer to the user's message, with `err` quoted in it.
fn come_again_reply(err: &str) -> (r: Reply)
    ensures
        is_markdown_answer(r, come_again(err@)),
{
    let text = String::from_str("Come again?\n\"`").concat(err).concat("`\"");
    Reply { text, markdown: true, reply_to_message: true }
}

/// The argument after the command word, read as an image number.
fn parse_arg(text: &str) -> (r: Option<Result<u16, String>>)
    ensures
        split_spaces(text@).len() == 1 <==> r is None,
        r matches Some(Ok(n)) ==> split_spaces(text@).len() > 1 && number_arg(
            split_spaces(text@)[1],
        ) == Ok::<u16, Seq<char>>(n),
        r matches Some(Err(e)) ==> split_spaces(text@).len() > 1 && number_arg(
            split_spaces(text@)[1],
        ) == Err::<u16, Seq<char>>(e@),
{
    let args = split_words(&chars_of(text));
    proof {
        lemma_split_spaces_nonempty(text@);
    }
    if args.len() == 1 {
        None
    } else {
        assert(args.deep_view()[1] =~= args@[1]@);
        let arg = string_of(&args[1]);
        match parse_u16(arg.as_str()) {
            Ok(n) => Some(Ok(n)),
            Err(e) => Some(Err(e)),
        }
    }
}

/// Decides the answer to a user command whose message says `text`: the
/// command list for `/help`; for `/opossum` and `/hiss` a random picture when
/// no argument follows, else the numbered picture, or "Come again?" with the
/// parse error when the argument is no image number.
pub fn plan_answer(cmd: Command, text: &str) -> (a: Answer)
    ensures
        match cmd {
            Command::Help => a is Help,
            Command::Opossum => image_answer(a, ImageKind::Opossum, split_spaces(text@)),
            Command::Hiss => image_answer(a, ImageKind::Hiss, split_spaces(text@)),
        },
{
    let kind = match cmd {
        Command::Help => {
            return Answer::Help;
        },
        Command::Opossum => ImageKind::Opossum,
        Command::Hiss => ImageKind::Hiss,
    };
    match parse_arg(text) {
        None => Answer::Random(kind),
        Some(Ok(image)) => Answer::Specific(kind, image),
        Some(Err(e)) => Answer::Send(come_again_reply(e.as_str())),
    }
}

/// The text for a picture number that no file has.
pub open spec fn missing_image_text(kind: ImageKind, image: u16) -> Seq<char> {
    match kind {
        ImageKind::Opossum => "Opossum image number `"@ + decimal(image as int)
            + "` does not exist\\."@,
        ImageKind::Hiss => "Hiss image number `"@ + decimal(image as int) + "` does not exist."@,
    }
}

/// The reply when no file holds picture `image`: for an opossum a markdown
/// answer to the user's message, for a hiss a plain message.
pub fn missing_image_reply(kind: ImageKind, image: u16) -> (r: Reply)
    ensures
        r.text@ == missing_image_text(kind, image),
        r.markdown == (kind == ImageKind::Opossum),
        r.reply_to_message == (kind == ImageKind::Opossum),
{
    let number = decimal_text(image as i64);
    match kind {
        ImageKind::Opossum => {
            let text = String::from_str("Opossum image number `").concat(number.as_str()).concat(
                "` does not exist\\.",
            );
            Reply { text, markdown: true, reply_to_message: true }
        },
        ImageKind::Hiss => {
            let text = String::from_str("Hiss image number `").concat(number.as_str()).concat(
                "` does not exist.",
            );
            Reply { text, markdown: false, reply_to_message: false }
        },
    }
}

/// The text of a message, the empty text when it has none.
pub open spec fn message_text(msg: MessageInfo) -> Seq<char> {
    match msg.text {
        Some(t) => t@,
        None => Seq::<char>::empty(),
    }
}

/// Decides the answer to an admin command: a message from anyone but an
/// admin is left alone; for an admin, `/ban` needs an image number,
/// `/get_banned` lists the ban list, and `/magic` sends a special picture.
pub fn plan_admin(cmd: AdminCommand, msg: MessageInfo, cfg: Arc<Config>) -> (a: AdminAnswer)
    ensures
        !admin_sent(msg, *cfg) ==> a is Ignore,
        admin_sent(msg, *cfg) ==> match cmd {
            AdminCommand::Ban => {
                let args = split_spaces(message_text(msg));
                if args.len() == 1 {
                    a matches AdminAnswer::Send(r) && r.text@ == "You need to specify an image to ban."@
                        && !r.markdown && r.reply_to_message
                } else {
                    match number_arg(args[1]) {
                        Ok(n) => a == AdminAnswer::Ban(n),
                        Err(e) => a matches AdminAnswer::Send(r) && is_markdown_answer(
                            r,
                            come_again(e),
                        ),
                    }
                }
            },
            AdminCommand::Get_Banned => a is ListBanned,
            AdminCommand::Magic => a is RandomSpecial,
        },
{
    if !sent_by_admin(&msg, &cfg) {
        return AdminAnswer::Ignore;
    }
    match cmd {
        AdminCommand::Ban => {
            let empty = String::new();
            let text = match &msg.text {
                Some(t) => t.as_str(),
                None => empty.as_str(),
            };
            match parse_arg(text) {
                None => AdminAnswer::Send(
                    Reply {
                        text: String::from_str("You need to specify an image to ban."),
                        markdown: false,
                        reply_to_message: true,
                    },
                ),
                Some(Ok(image)) => AdminAnswer::Ban(image),
                Some(Err(e)) => AdminAnswer::Send(come_again_reply(e.as_str())),
            }
        },
        AdminCommand::Get_Banned => AdminAnswer::ListBanned,
        AdminCommand::Magic => AdminAnswer::RandomSpecial,
    }
}

/// The answer after trying to ban `image`: a confirmation when the ban was
/// stored, else a database error.
pub fn ban_reply(image: u16, stored: bool) -> (r: Reply)
    ensures
        r.text@ == (if stored {
            "Banned image "@ + decimal(image as int) + " !"@
        } else {
            "Database error 😟"@
        }),
        !r.markdown,
        r.reply_to_message,
{
    if stored {
        let text = String::from_str("Banned image ").concat(decimal_text(image as i64).as_str()).concat(
            " !",
        );
        Reply { text, markdown: false, reply_to_message: true }
    } else {
        Reply { text: String::from_str("Database error 😟"), markdown: false, reply_to_message: true }
    }
}

/// The numbers of `banned` in decimal, separated by `", "`.
pub open spec fn joined_numbers(banned: Seq<i32>) -> Seq<char>
    decreases banned.len(),
{
    if banned.len() == 0 {
        Seq::<char>::empty()
    } else if banned.len() == 1 {
        decimal(banned[0] as int)
    } else {
        joined_numbers(banned.drop_last()) + ", "@ + decimal(banned.last() as int)
    }
}

/// The markdown answer that lists the banned images.
pub fn banned_list_reply(banned: &Vec<i32>) -> (r: Reply)
    ensures
        is_markdown_answer(
            r,
            "The following images are banned: \n\"`"@ + joined_numbers(banned@) + "`\""@,
        ),
{
    let mut joined = String::new();
    for i in 0..banned.len()
        invariant
            joined@ == joined_numbers(banned@.take(i as int)),
    {
        assert(banned@.take(i + 1).drop_last() =~= banned@.take(i as int));
        if i != 0 {
            joined.append(", ");
        }
        joined.append(decimal_text(banned[i] as i64).as_str());
    }
    assert(banned@.take(banned.len() as int) =~= banned@);
    let text = String::from_str("The following images are banned: \n\"`").concat(
        joined.as_str(),
    ).concat("`\"");
    Reply { text, markdown: true, reply_to_message: true }
}

/// How a picture came to be sent.
#[derive(Clone, Copy, Debug, PartialEq, Eq)]
pub enum Sent {
    /// A random opossum, for a message that named one.
    RandomOpossum,
    /// A random hiss, for a message that called for one.
    RandomHiss,
    /// A random special picture, for an admin.
    RandomSpecial,
    /// A numbered picture asked for with `/opossum <n>`.
    SpecificOpossum,
    /// A numbered picture asked for with `/hiss <n>`.
    SpecificHiss,
}

/// The two flags the history records for a sent picture: whether it counts
/// as a hiss, and whether a command asked for it. Numbered pictures count as
/// hisses whichever command asked for them.
pub fn history_flags(sent: Sent) -> (flags: (bool, bool))
    ensures
        flags == (match sent {
            Sent::RandomOpossum => (false, false),
            Sent::RandomHiss => (true, false),
            Sent::RandomSpecial => (false, false),
            Sent::SpecificOpossum => (true, true),
            Sent::SpecificHiss => (true, true),
        }),
{
    match sent {
        Sent::RandomOpossum => (false, false),
        Sent::RandomHiss => (true, false),
        Sent::RandomSpecial => (false, false),
        Sent::SpecificOpossum => (true, true),
        Sent::SpecificHiss => (true, true),
    }
}

/// How a picture goes out: its caption, and whether it answers the user's
/// message.
#[derive(Debug)]
pub struct Photo {
    pub caption: Option<String>,
    pub reply_to_message: bool,
}

/// How a sent picture goes out: a random opossum shows its number, a hiss
/// shows a random hiss, the others have no caption; a special picture and a
/// numbered one answer the user's message, a random opossum or hiss does not.
pub fn photo_plan(sent: Sent, image: i32) -> (p: Photo)
    ensures
        match sent {
            Sent::RandomOpossum => p.caption matches Some(t) && t@ == decimal(image as int),
            Sent::RandomHiss | Sent::SpecificHiss => p.caption matches Some(t) && exists|
                n: int,
                caps: bool,
            | 1 <= n < 8 && t@ == hiss_spec(n, caps),
            Sent::RandomSpecial | Sent::SpecificOpossum => p.caption is None,
        },
        p.reply_to_message == (match sent {
            Sent::RandomOpossum | Sent::RandomHiss => false,
            Sent::RandomSpecial | Sent::SpecificOpossum | Sent::SpecificHiss => true,
        }),
{
    match sent {
        Sent::RandomOpossum => Photo { caption: Some(decimal_text(image as i64)), reply_to_message: false },
        Sent::RandomHiss => Photo { caption: Some(hiss_text()), reply_to_message: false },
        Sent::SpecificHiss => Photo { caption: Some(hiss_text()), reply_to_message: true },
        Sent::RandomSpecial => Photo { caption: None, reply_to_message: true },
        Sent::SpecificOpossum => Photo { caption: None, reply_to_message: true },
    }
}

/// The directory a picture is taken from: the opossum, hiss or special
/// directory, after the kind of picture.
pub fn picture_dir(sent: Sent, cfg: &Config) -> (dir: String)
    ensures
        dir@ == (match sent {
            Sent::RandomOpossum | Sent::SpecificOpossum => cfg.dirs.opossum@,
            Sent::RandomHiss | Sent::SpecificHiss => cfg.dirs.hiss@,
            Sent::RandomSpecial => cfg.dirs.special@,
        }),
{
    match sent {
        Sent::RandomOpossum | Sent::SpecificOpossum => cfg.dirs.opossum.clone(),
        Sent::RandomHiss | Sent::SpecificHiss => cfg.dirs.hiss.clone(),
        Sent::RandomSpecial => cfg.dirs.special.clone(),
    }
}

/// How a numbered picture of this kind counts as sent.
pub fn specific_sent(kind: ImageKind) -> (sent: Sent)
    ensures
        sent == (match kind {
            ImageKind::Opossum => Sent::SpecificOpossum,
            ImageKind::Hiss => Sent::SpecificHiss,
        }),
{
    match kind {
        ImageKind::Opossum => Sent::SpecificOpossum,
        ImageKind::Hiss => Sent::SpecificHiss,
    }
}

/// The answer to `/help`: the list of commands as plain text, sent as a
/// message of its own (not as an answer to the user's message).
pub fn help_reply(descriptions: String) -> (r: Reply)
    ensures
        r.text@ == descriptions@,
        !r.markdown,
        !r.reply_to_message,
{
    Reply { text: descriptions, markdown: false, reply_to_message: false }
}

/// The answer to a group that asks for a picture too soon: "shh", as an
/// answer to the message.
pub fn shh_reply() -> (r: Reply)
    ensures
        r.text@ == "shh"@,
        !r.markdown,
        r.reply_to_message,
{
    Reply { text: String::from_str("shh"), markdown: false, reply_to_message: true }
}

/// A picture number written as the bot writes numbers is read back as that
/// same number when it follows a command.
pub proof fn lemma_number_arg_of_decimal(n: u16)
    ensures
        number_arg(decimal(n as int)) == Ok::<u16, Seq<char>>(n),
{
    crate::text::lemma_decimal_parses_back(n as nat);
}

/// The ban list's text names every banned image: each number of the list,
/// in decimal, stands in it; a list of one number is just that number; and
/// each further number makes the text longer.
pub proof fn lemma_banned_list_names_all(banned: Seq<i32>)
    ensures
        forall|i: int|
            0 <= i < banned.len() ==> crate::text::contains_text(
                joined_numbers(banned),
                decimal(#[trigger] banned[i] as int),
            ),
        banned.len() == 1 ==> joined_numbers(banned) == decimal(banned[0] as int),
        banned.len() > 0 ==> joined_numbers(banned).len() >= banned.len(),
    decreases banned.len(),
{
    if banned.len() == 0 {
    } else if banned.len() == 1 {
        crate::text::lemma_decimal_nonempty(banned[0] as int);
        assert(decimal(banned[0] as int) =~= Seq::<char>::empty() + decimal(banned[0] as int));
        crate::text::lemma_contains_suffix(Seq::<char>::empty(), decimal(banned[0] as int));
    } else {
        let init = banned.drop_last();
        lemma_banned_list_names_all(init);
        let front = joined_numbers(init) + ", "@;
        let last = decimal(banned.last() as int);
        crate::text::lemma_decimal_nonempty(banned.last() as int);
        assert(joined_numbers(banned) == front + last);
        crate::text::lemma_contains_suffix(front, last);
        assert forall|i: int| 0 <= i < banned.len() implies crate::text::contains_text(
            joined_numbers(banned),
            decimal(#[trigger] banned[i] as int),
        ) by {
            if i < banned.len() - 1 {
                assert(init[i] == banned[i]);
                crate::text::lemma_contains_in_prefix(
                    joined_numbers(init),
                    ", "@ + last,
                    decimal(banned[i] as int),
                );
                assert(joined_numbers(init) + (", "@ + last) =~= joined_numbers(banned));
            }
        }
    }
}

} // verus!
