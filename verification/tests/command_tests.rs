use lmpic_downloader::command::parse_command;
use lmpic_downloader::Command;

#[test]
fn test_print_enum() {
    println!("enum {:?}", Command::PREV);
}

#[test]
fn plain_commands_parse_by_word_or_letter() {
    assert_eq!(parse_command("help"), Command::HELP);
    assert_eq!(parse_command("H"), Command::HELP);
    assert_eq!(parse_command("current"), Command::CURRENT);
    assert_eq!(parse_command("c"), Command::CURRENT);
    assert_eq!(parse_command("first"), Command::FIRST);
    assert_eq!(parse_command("LAST"), Command::LAST);
    assert_eq!(parse_command("n"), Command::NEXT);
    assert_eq!(parse_command("prev"), Command::PREV);
    assert_eq!(parse_command("q"), Command::QUIT);
}

#[test]
fn empty_and_unknown_input() {
    assert_eq!(parse_command(""), Command::NONE);
    assert_eq!(parse_command("   \t  "), Command::NONE);
    assert_eq!(parse_command("bogus"), Command::UNKNOWN);
    assert_eq!(parse_command("nextt"), Command::UNKNOWN);
}

#[test]
fn jump_reads_a_page_number() {
    assert_eq!(parse_command("jump 5"), Command::JUMP(5));
    assert_eq!(parse_command("j 12"), Command::JUMP(12));
    assert_eq!(parse_command("j +3"), Command::JUMP(3));
    assert_eq!(
        parse_command("jump"),
        Command::ArgumentErr("缺少页码参数".to_string())
    );
    assert_eq!(
        parse_command("jump abc"),
        Command::ArgumentErr("参数必须为数字".to_string())
    );
    assert_eq!(
        parse_command("jump 99999999999"),
        Command::ArgumentErr("参数必须为数字".to_string())
    );
}

#[test]
fn download_reads_an_album_index() {
    assert_eq!(parse_command("download 6"), Command::DOWNLOAD(6));
    assert_eq!(parse_command("d 1"), Command::DOWNLOAD(1));
    assert_eq!(
        parse_command("download"),
        Command::ArgumentErr("缺少专辑索引参数".to_string())
    );
    assert_eq!(
        parse_command("d x1"),
        Command::ArgumentErr("参数必须为数字".to_string())
    );
}

#[test]
fn switch_and_search_take_their_arguments() {
    assert_eq!(parse_command("switch"), Command::SWITCH(None));
    assert_eq!(
        parse_command("switch sftk"),
        Command::SWITCH(Some("SFTK".to_string()))
    );
    assert_eq!(parse_command("search 云南"), Command::SEARCH("云南".to_string()));
    assert_eq!(parse_command("s abc"), Command::SEARCH("ABC".to_string()));
    assert_eq!(
        parse_command("search"),
        Command::ArgumentErr("缺少专辑索引参数".to_string())
    );
}
