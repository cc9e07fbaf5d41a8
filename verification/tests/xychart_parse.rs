use sebastian::xychart::{parse, parse_number_list_exec, parse_range_exec, PlotKind, XAxisData};

fn chars(s: &str) -> Vec<char> {
    s.chars().collect()
}

#[test]
fn xychart_full_chart() {
    let src = "xychart-beta\n    title \"Sales Revenue\"\n    x-axis [jan, feb, mar]\n    y-axis \"Revenue (in $)\" 4000 --> 11000\n    bar [5000, 6000, 7500]\n    line [5000, 6000, 7500]\n";
    let db = parse(src).ok().unwrap();
    assert_eq!(db.title, "Sales Revenue");
    assert!(!db.horizontal);
    match &db.x_axis {
        XAxisData::Band(c) => assert_eq!(c, &vec!["jan".to_string(), "feb".to_string(), "mar".to_string()]),
        XAxisData::Linear { .. } => panic!("expected a band axis"),
    }
    assert!(db.has_set_x);
    assert_eq!(db.y_title, "Revenue (in $)");
    assert_eq!(db.y_range, Some(("4000".to_string(), "11000".to_string())));
    assert_eq!(db.plots.len(), 2);
    assert!(db.plots[0].kind == PlotKind::Bar);
    assert!(db.plots[1].kind == PlotKind::Line);
    assert_eq!(db.plots[0].color, "#ECECFF");
    assert_eq!(db.plots[1].color, "#8493A6");
    assert_eq!(db.plots[1].values, vec!["5000".to_string(), "6000".to_string(), "7500".to_string()]);
}

#[test]
fn xychart_first_plot_sets_the_x_range() {
    let db = parse("xychart-beta horizontal\nline [1.5, 2, 3e2, -4]\n").ok().unwrap();
    assert!(db.horizontal);
    match &db.plots[0].x_axis {
        XAxisData::Linear { min, max } => {
            assert_eq!(min, "1");
            assert_eq!(max, "4");
        }
        XAxisData::Band(_) => panic!("expected a linear axis"),
    }
    assert_eq!(db.y_range, None);
}

#[test]
fn xychart_explicit_x_range_and_unquoted_titles() {
    let db = parse("xychart-beta\nx-axis \"Month\" 1 --> 12\ny-axis Amount\nbar [1, 2]\n").ok().unwrap();
    assert_eq!(db.x_title, "Month");
    match &db.x_axis {
        XAxisData::Linear { min, max } => {
            assert_eq!(min, "1");
            assert_eq!(max, "12");
        }
        XAxisData::Band(_) => panic!("expected a linear axis"),
    }
    assert_eq!(db.y_title, "Amount");
    let db2 = parse("xychart-beta\nx-axis Months 1 --> 12\nbar [1, 2]\n").ok().unwrap();
    assert_eq!(db2.x_title, "Months 1 --> 12");
    match &db2.plots[0].x_axis {
        XAxisData::Linear { min, max } => {
            assert_eq!(min, "1");
            assert_eq!(max, "2");
        }
        XAxisData::Band(_) => panic!("expected a linear axis"),
    }
}

#[test]
fn xychart_colors_cycle() {
    let mut src = String::from("xychart-beta\n");
    for _ in 0..11 {
        src.push_str("bar [1]\n");
    }
    let db = parse(&src).ok().unwrap();
    assert_eq!(db.plots[9].color, "#F8F3E3");
    assert_eq!(db.plots[10].color, "#ECECFF");
}

#[test]
fn xychart_errors() {
    assert_eq!(parse("").err().unwrap().message, "missing xychart-beta header");
    assert_eq!(
        parse("pie\n").err().unwrap().message,
        "expected xychart-beta header, got \"pie\""
    );
    assert_eq!(parse("xychart-beta\ntitle x\n").err().unwrap().message, "No Plot to render");
    assert_eq!(
        parse("xychart-beta\nbar [1, x]\n").err().unwrap().message,
        "bad plot data: bar [1, x]"
    );
    assert_eq!(
        parse("xychart-beta\npie [1]\n").err().unwrap().message,
        "unsupported xychart statement: pie [1]"
    );
}

#[test]
fn xychart_number_helpers() {
    assert_eq!(parse_range_exec(&chars(" 0 --> 9.5 ")), Some(("0".to_string(), "9.5".to_string())));
    assert_eq!(parse_range_exec(&chars("a --> 2")), None);
    assert_eq!(parse_range_exec(&chars("1 - 2")), None);
    assert_eq!(
        parse_number_list_exec(&chars("[ 1, inf , -2.5e3 ]")),
        Some(vec!["1".to_string(), "inf".to_string(), "-2.5e3".to_string()])
    );
    assert_eq!(parse_number_list_exec(&chars("[]")), None);
    assert_eq!(parse_number_list_exec(&chars("1, 2")), None);
}
