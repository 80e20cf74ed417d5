use std::sync::Arc;

use tg_opossum::config::{Config, Dirs, Token, Triggers, TriggersHiss, TriggersSpecial};
use tg_opossum::filters::MessageInfo;
use tg_opossum::handlers::{
    ban_reply, banned_list_reply, help_reply, history_flags, missing_image_reply, photo_plan,
    picture_dir, plan_admin, plan_answer, shh_reply, specific_sent, AdminAnswer, AdminCommand,
    Answer, Command, ImageKind, Sent,
};
use tg_opossum::images::{
    draw_file, draw_outcome, image_number, is_banned, specific_file_choice, Draw, SpecificFile,
};

fn strings(words: &[&str]) -> Vec<String> {
    words.iter().map(|w| w.to_string()).collect()
}

#[test]
fn image_number_reads_leading_digits() {
    assert_eq!(image_number("12.jpg"), 12);
    assert_eq!(image_number("opossum.jpg"), 0);
    assert_eq!(image_number("2147483647x"), i32::MAX);
    assert_eq!(image_number("2147483648x"), 0);
    assert_eq!(image_number("007.png"), 7);
}

#[test]
fn is_banned_looks_up() {
    assert!(is_banned(&vec![1, 5, 9], 5));
    assert!(!is_banned(&vec![1, 5, 9], 6));
    assert!(!is_banned(&vec![], 0));
}

#[test]
fn draw_outcome_judges_the_draw() {
    let name = "3.jpg".to_string();
    assert!(matches!(draw_outcome(None, &vec![]), Draw::NoFiles));
    assert!(matches!(draw_outcome(Some(&name), &vec![3]), Draw::Banned(3)));
    match draw_outcome(Some(&name), &vec![4]) {
        Draw::Chosen(file, n) => {
            assert_eq!(file, "3.jpg");
            assert_eq!(n, 3);
        }
        other => panic!("{:?}", other),
    }
}

#[test]
fn draw_file_never_gives_a_banned_picture() {
    let names = strings(&["1.jpg", "2.jpg", "3.jpg"]);
    let banned = vec![1, 3];
    for _ in 0..100 {
        match draw_file(&names, &banned) {
            Draw::Chosen(file, n) => {
                assert_eq!(file, "2.jpg");
                assert_eq!(n, 2);
            }
            Draw::Banned(n) => assert!(n == 1 || n == 3),
            Draw::NoFiles => panic!("there are files"),
        }
    }
    assert!(matches!(draw_file(&vec![], &banned), Draw::NoFiles));
}

#[test]
fn specific_file_choice_cases() {
    let names = strings(&["12.jpg", "5.jpg", "x.jpg", "1.jpg", "001.png"]);
    assert_eq!(specific_file_choice(&names, 12, &vec![]), SpecificFile::Found(0));
    assert_eq!(specific_file_choice(&names, 5, &vec![]), SpecificFile::Found(1));
    // Asking for 1 finds 1.jpg, not 12.jpg listed before it.
    assert_eq!(specific_file_choice(&names, 1, &vec![]), SpecificFile::Found(3));
    assert_eq!(specific_file_choice(&names, 1, &vec![1]), SpecificFile::Banned(3));
    assert_eq!(specific_file_choice(&names, 12, &vec![12]), SpecificFile::Banned(0));
    assert_eq!(specific_file_choice(&names, 0, &vec![]), SpecificFile::NotFound);
    assert_eq!(specific_file_choice(&names, 99, &vec![]), SpecificFile::NotFound);
    assert_eq!(specific_file_choice(&vec![], 1, &vec![]), SpecificFile::NotFound);
    let zeros = strings(&["0.jpg", "big99999999999.jpg"]);
    assert_eq!(specific_file_choice(&zeros, 0, &vec![]), SpecificFile::Found(0));
}

fn cfg() -> Arc<Config> {
    Arc::new(Config {
        admins: vec![1],
        admin_chat: 0,
        rate_limit_secs: 30,
        tokens: Token { token: String::new(), test_token: String::new() },
        dirs: Dirs {
            opossum: "/o".to_string(),
            hiss: "/h".to_string(),
            special: "/s".to_string(),
        },
        triggers: Triggers {
            first_trigger: vec![],
            second_trigger: vec![],
            hiss: TriggersHiss { first_trigger: vec![] },
            special: TriggersSpecial { first_trigger: vec![] },
        },
    })
}

fn admin_msg(sender: Option<u64>, text: Option<&str>) -> MessageInfo {
    MessageInfo { sender_id: sender, chat_id: 3, chat_private: false, text: text.map(|t| t.to_string()) }
}

#[test]
fn plan_answer_cases() {
    assert!(matches!(plan_answer(Command::Help, "/help"), Answer::Help));
    assert!(matches!(plan_answer(Command::Opossum, "/opossum"), Answer::Random(ImageKind::Opossum)));
    assert!(matches!(plan_answer(Command::Hiss, "/hiss"), Answer::Random(ImageKind::Hiss)));
    assert!(matches!(plan_answer(Command::Opossum, "/opossum 12"), Answer::Specific(ImageKind::Opossum, 12)));
    assert!(matches!(plan_answer(Command::Hiss, "/hiss +7 more"), Answer::Specific(ImageKind::Hiss, 7)));
    match plan_answer(Command::Opossum, "/opossum abc") {
        Answer::Send(r) => {
            assert_eq!(r.text, "Come again?\n\"`invalid digit found in string`\"");
            assert!(r.markdown && r.reply_to_message);
        }
        other => panic!("{:?}", other),
    }
    // Two spaces make an empty argument.
    match plan_answer(Command::Hiss, "/hiss  3") {
        Answer::Send(r) => assert_eq!(r.text, "Come again?\n\"`cannot parse integer from empty string`\""),
        other => panic!("{:?}", other),
    }
    match plan_answer(Command::Hiss, "/hiss 70000") {
        Answer::Send(r) => assert_eq!(r.text, "Come again?\n\"`number too large to fit in target type`\""),
        other => panic!("{:?}", other),
    }
}

#[test]
fn plan_admin_cases() {
    match plan_admin(AdminCommand::Ban, admin_msg(Some(1), Some("/ban")), cfg()) {
        AdminAnswer::Send(r) => {
            assert_eq!(r.text, "You need to specify an image to ban.");
            assert!(!r.markdown && r.reply_to_message);
        }
        other => panic!("{:?}", other),
    }
    assert!(matches!(plan_admin(AdminCommand::Ban, admin_msg(Some(1), Some("/ban 4")), cfg()), AdminAnswer::Ban(4)));
    match plan_admin(AdminCommand::Ban, admin_msg(Some(1), Some("/ban x")), cfg()) {
        AdminAnswer::Send(r) => assert_eq!(r.text, "Come again?\n\"`invalid digit found in string`\""),
        other => panic!("{:?}", other),
    }
    assert!(matches!(plan_admin(AdminCommand::Get_Banned, admin_msg(Some(1), Some("/get_banned")), cfg()), AdminAnswer::ListBanned));
    assert!(matches!(plan_admin(AdminCommand::Magic, admin_msg(Some(1), Some("/magic")), cfg()), AdminAnswer::RandomSpecial));
}

#[test]
fn admin_commands_need_an_admin() {
    for cmd in [AdminCommand::Ban, AdminCommand::Get_Banned, AdminCommand::Magic] {
        assert!(matches!(plan_admin(cmd, admin_msg(Some(2), Some("/ban 4")), cfg()), AdminAnswer::Ignore));
        assert!(matches!(plan_admin(cmd, admin_msg(None, Some("/ban 4")), cfg()), AdminAnswer::Ignore));
    }
}

#[test]
fn pictures_come_from_their_directories() {
    let c = cfg();
    assert_eq!(picture_dir(Sent::RandomOpossum, &c), "/o");
    assert_eq!(picture_dir(Sent::SpecificOpossum, &c), "/o");
    assert_eq!(picture_dir(Sent::RandomHiss, &c), "/h");
    assert_eq!(picture_dir(Sent::SpecificHiss, &c), "/h");
    assert_eq!(picture_dir(Sent::RandomSpecial, &c), "/s");
    assert_eq!(specific_sent(ImageKind::Opossum), Sent::SpecificOpossum);
    assert_eq!(specific_sent(ImageKind::Hiss), Sent::SpecificHiss);
}

#[test]
fn replies_have_their_texts() {
    let r = missing_image_reply(ImageKind::Opossum, 12);
    assert_eq!(r.text, "Opossum image number `12` does not exist\\.");
    assert!(r.markdown && r.reply_to_message);
    let r = missing_image_reply(ImageKind::Hiss, 0);
    assert_eq!(r.text, "Hiss image number `0` does not exist.");
    assert!(!r.markdown && !r.reply_to_message);
    assert_eq!(ban_reply(65535, true).text, "Banned image 65535 !");
    assert_eq!(ban_reply(3, false).text, "Database error 😟");
    let r = banned_list_reply(&vec![3, -1, 20]);
    assert_eq!(r.text, "The following images are banned: \n\"`3, -1, 20`\"");
    assert!(r.markdown && r.reply_to_message);
    assert_eq!(banned_list_reply(&vec![]).text, "The following images are banned: \n\"``\"");
}

#[test]
fn history_and_captions() {
    assert_eq!(history_flags(Sent::RandomOpossum), (false, false));
    assert_eq!(history_flags(Sent::RandomHiss), (true, false));
    assert_eq!(history_flags(Sent::RandomSpecial), (false, false));
    assert_eq!(history_flags(Sent::SpecificOpossum), (true, true));
    assert_eq!(history_flags(Sent::SpecificHiss), (true, true));
    let p = photo_plan(Sent::RandomOpossum, 31);
    assert_eq!(p.caption, Some("31".to_string()));
    assert!(!p.reply_to_message);
    let p = photo_plan(Sent::RandomSpecial, 31);
    assert_eq!(p.caption, None);
    assert!(p.reply_to_message);
    let p = photo_plan(Sent::SpecificOpossum, 31);
    assert_eq!(p.caption, None);
    assert!(p.reply_to_message);
    let p = photo_plan(Sent::RandomHiss, 31);
    assert!(p.caption.unwrap().to_lowercase().starts_with("hiss"));
    assert!(!p.reply_to_message);
    let p = photo_plan(Sent::SpecificHiss, 31);
    assert!(p.caption.unwrap().to_lowercase().starts_with("hiss"));
    assert!(p.reply_to_message);
}

#[test]
fn help_and_shh_replies() {
    let r = help_reply("/help — display this text.".to_string());
    assert_eq!(r.text, "/help — display this text.");
    assert!(!r.markdown && !r.reply_to_message);
    let r = shh_reply();
    assert_eq!(r.text, "shh");
    assert!(!r.markdown && r.reply_to_message);
}
