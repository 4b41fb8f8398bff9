use glacier::flow::{ask, choose_index, pick, Reply, Request};
use glacier::survey::{all_questions, name_answers, put_question, take_answer, Question};

#[test]
fn a_choice_is_an_option_or_the_first() {
    let options = vec!["a".to_string(), "b".to_string()];
    assert_eq!(pick(&options, &Reply::Choice(Some(1))), Some("b".to_string()));
    assert_eq!(pick(&options, &Reply::Choice(None)), Some("a".to_string()));
    assert_eq!(pick(&options, &Reply::Choice(Some(2))), None);
    assert_eq!(pick(&Vec::new(), &Reply::Choice(None)), None);
    assert_eq!(pick(&options, &Reply::Done), None);
    assert_eq!(choose_index(3, &Reply::Choice(Some(2))), Some(2));
}

#[test]
fn a_typed_answer_is_the_text_or_the_default() {
    assert_eq!(ask("eth0", Reply::Text(Some("eth1".to_string()))), Some("eth1".to_string()));
    assert_eq!(ask("eth0", Reply::Text(None)), Some("eth0".to_string()));
    assert_eq!(ask("eth0", Reply::Choice(None)), None);
}

#[test]
fn the_questions_have_their_options() {
    let all = all_questions();
    assert_eq!(all.len(), 13);
    let sizes: Vec<usize> = all
        .iter()
        .map(|q| match q {
            Question::Ask { .. } => 0,
            Question::Pick { options, .. } => options.len(),
        })
        .collect();
    assert_eq!(sizes, vec![0, 0, 0, 0, 1, 1, 1, 1, 1, 3, 1, 4, 13]);
    match &all[12] {
        Question::Pick { options, .. } => assert_eq!(
            options,
            &vec![
                "everforest",
                "nord",
                "dracula",
                "catppuccinFrappe",
                "iceberg",
                "icebergDark",
                "kawagama",
                "rosePine",
                "tokyoNight",
                "oxocarbon",
                "monokaiPro",
                "synthwave",
                "atom",
            ]
        ),
        other => panic!("{:?}", other),
    }
}

#[test]
fn every_question_is_answered_by_default() {
    let mut list = Vec::new();
    for i in 0..13 {
        let reply = match put_question(i) {
            Request::Input { .. } => Reply::Text(None),
            Request::Select { .. } => Reply::Choice(None),
            other => panic!("{:?}", other),
        };
        list.push(take_answer(i, reply).unwrap());
    }
    let a = name_answers(&list);
    assert_eq!(
        (a.system_name.as_str(), a.user.as_str(), a.full_name.as_str(), a.email.as_str()),
        ("desktop", "john", "John Doe", "john@doe.com")
    );
    assert_eq!((a.wm.as_str(), a.terminal.as_str(), a.dm.as_str()), ("hyprland", "kitty", "sddm"));
    assert_eq!((a.launcher.as_str(), a.browser.as_str()), ("wofi", "firefox"));
    assert_eq!((a.shell.as_str(), a.editor.as_str()), ("exoshell", "micro"));
    assert_eq!((a.wallpaper.as_str(), a.theme.as_str()), ("nixos", "everforest"));
}

#[test]
fn a_reply_of_another_kind_is_no_answer() {
    assert_eq!(take_answer(0, Reply::Choice(Some(0))), None);
    assert_eq!(take_answer(9, Reply::Choice(Some(3))), None);
    assert_eq!(take_answer(9, Reply::Choice(Some(2))), Some("dms".to_string()));
}
