use sebastian::text::{
    block_font_exec, is_box_drawing_exec, is_emoji_presentation_exec, is_hand_drawn,
    read_font_exec, register_font, set_hand_drawn, split_breaks, times_available,
    trebuchet_available, FontEnv, SeqMeasurer,
};

fn env() -> FontEnv {
    FontEnv::new(
        vec![("/Library/Fonts/Times New Roman.ttf".to_string(), vec![9, 9])],
        vec![1],
        vec![2],
        vec![3],
    )
}

#[test]
fn hand_drawn_switch_reads_back() {
    let mut e = env();
    assert!(!is_hand_drawn(&e));
    set_hand_drawn(&mut e, true);
    assert!(is_hand_drawn(&e));
    set_hand_drawn(&mut e, false);
    assert!(!is_hand_drawn(&e));
}

#[test]
fn registry_comes_before_disk() {
    let mut e = env();
    assert_eq!(read_font_exec(&e, "/Library/Fonts/Times New Roman.ttf"), Some(vec![9, 9]));
    register_font(&mut e, "Times New Roman.ttf", vec![7]);
    assert_eq!(read_font_exec(&e, "/Library/Fonts/Times New Roman.ttf"), Some(vec![7]));
    assert_eq!(read_font_exec(&e, "C:/Windows/Fonts/other.ttf"), None);
    register_font(&mut e, "Times New Roman.ttf", vec![8]);
    assert_eq!(read_font_exec(&e, "x/Times New Roman.ttf"), Some(vec![8]));
}

#[test]
fn availability_follows_candidates() {
    let mut e = env();
    assert!(times_available(&e));
    assert!(!trebuchet_available(&e));
    register_font(&mut e, "Trebuchet MS.ttf", vec![5]);
    assert!(trebuchet_available(&e));
}

#[test]
fn seq_measurer_faces() {
    let mut e = FontEnv::new(vec![], vec![1], vec![2], vec![3]);
    assert_eq!(SeqMeasurer::new(&e).data, vec![3]);
    assert_eq!(SeqMeasurer::for_ink(&e).data, vec![2]);
    set_hand_drawn(&mut e, true);
    assert_eq!(SeqMeasurer::new(&e).data, vec![1]);
    register_font(&mut e, "Excalifont-Regular.ttf", vec![4]);
    assert_eq!(SeqMeasurer::for_ink(&e).data, vec![4]);
    set_hand_drawn(&mut e, false);
    register_font(&mut e, "Times New Roman.ttf", vec![6]);
    assert_eq!(SeqMeasurer::new(&e).data, vec![6]);
}

#[test]
fn split_breaks_on_br_tags() {
    assert_eq!(split_breaks("a<br>b<BR/>c<br />d"), vec!["a", "b", "c", "d"]);
    assert_eq!(split_breaks("no tags"), vec!["no tags"]);
    assert_eq!(split_breaks("x<bra>y<br"), vec!["x<bra>y<br"]);
    assert_eq!(split_breaks("<br>"), vec!["", ""]);
}

#[test]
fn char_classes() {
    assert!(is_emoji_presentation_exec('\u{1F600}'));
    assert!(!is_emoji_presentation_exec('\u{1F321}'));
    assert!(is_emoji_presentation_exec('\u{2705}'));
    assert!(!is_emoji_presentation_exec('a'));
    assert!(is_box_drawing_exec('\u{2500}'));
    assert!(!is_box_drawing_exec('-'));
    assert_eq!(block_font_exec('\u{2070}'), Some("/System/Library/Fonts/Helvetica.ttc"));
    assert_eq!(block_font_exec('\u{2200}'), Some("/System/Library/Fonts/Apple Symbols.ttf"));
    assert_eq!(block_font_exec('x'), None);
}

#[test]
fn trebuchet_found_by_registration_or_install_path() {
    let mut e = FontEnv::new(vec![], vec![1], vec![2], vec![3]);
    assert!(!trebuchet_available(&e));
    register_font(&mut e, "trebuc.ttf", vec![4]);
    assert!(trebuchet_available(&e));
    let e2 = FontEnv::new(vec![("/Library/Fonts/Trebuchet MS.ttf".to_string(), vec![5])], vec![1], vec![2], vec![3]);
    assert!(trebuchet_available(&e2));
    let mut e3 = FontEnv::new(vec![("/Library/Fonts/Trebuchet MS.ttf".to_string(), vec![5])], vec![1], vec![2], vec![3]);
    set_hand_drawn(&mut e3, true);
    assert!(trebuchet_available(&e3));
}
