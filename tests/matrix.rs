use heapless::Vec;
use stokast::matrix::{render, translate};

#[test]
fn translate_simple() {
    let mut v: Vec<u8, 64> = Vec::new();
    translate("HELLO WORLD", &mut v);
    assert_eq!(&v, &[17, 14, 21, 21, 24, 36, 32, 24, 27, 21, 13]);
}

#[test]
fn translate_skip_unknown() {
    let mut v: Vec<u8, 64> = Vec::new();
    translate("#!@~", &mut v);
    assert_eq!(&v, &[]);
}

fn test_render(s: &str, i: usize, o: u8, c: &[&str]) {
    let mut v: Vec<u8, 64> = Vec::new();
    translate(s, &mut v);

    let rows: Vec<_, 64> = (0..5)
        .map(|row| {
            let o = render(row, i, o, &v);
            let s = format!("{:#010b}|", o).replace("0b", "|").replace("0", " ");
            println!("{}", s);
            s
        })
        .collect();

    assert_eq!(&rows, c);
}

#[test]
fn render_no_offset() {
    test_render(
        "ABC",
        0,
        0,
        &[
            "|111 11  |",
            "|1 1 1 1 |",
            "|111 11  |",
            "|1 1 1 1 |",
            "|1 1 11  |",
        ],
    );
}

#[test]
fn render_offset_1() {
    test_render(
        "ABC",
        0,
        1,
        &[
            "|11 11  1|",
            "| 1 1 1 1|",
            "|11 11  1|",
            "| 1 1 1 1|",
            "| 1 11  1|",
        ],
    );
}

#[test]
fn render_offset_2() {
    test_render(
        "ABC",
        0,
        2,
        &[
            "|1 11  11|",
            "|1 1 1 1 |",
            "|1 11  1 |",
            "|1 1 1 1 |",
            "|1 11  11|",
        ],
    );
}

#[test]
fn render_offset_3() {
    test_render(
        "ABC",
        0,
        3,
        &[
            "| 11  11 |",
            "| 1 1 1  |",
            "| 11  1  |",
            "| 1 1 1  |",
            "| 11  11 |",
        ],
    );
}

#[test]
fn render_offset_4() {
    test_render(
        "ABC",
        0,
        4,
        &[
            "|11  11  |",
            "|1 1 1   |",
            "|11  1   |",
            "|1 1 1   |",
            "|11  11  |",
        ],
    );
}

#[test]
fn render_offset_5() {
    test_render(
        "ABC",
        0,
        5,
        &[
            "|1  11   |",
            "| 1 1    |",
            "|1  1    |",
            "| 1 1    |",
            "|1  11   |",
        ],
    );
}

#[test]
fn render_offset_6() {
    test_render(
        "ABC",
        0,
        6,
        &[
            "|  11    |",
            "|1 1     |",
            "|  1     |",
            "|1 1     |",
            "|  11    |",
        ],
    );
}

#[test]
fn render_offset_7() {
    test_render(
        "ABC",
        0,
        7,
        &[
            "| 11     |",
            "| 1      |",
            "| 1      |",
            "| 1      |",
            "| 11     |",
        ],
    );
}

#[test]
fn render_offset_8() {
    test_render(
        "ABC",
        0,
        8,
        &[
            "|11      |",
            "|1       |",
            "|1       |",
            "|1       |",
            "|11      |",
        ],
    );
}

#[test]
fn render_offset_10() {
    test_render(
        "ABC",
        0,
        10,
        &[
            "|        |",
            "|        |",
            "|        |",
            "|        |",
            "|        |",
        ],
    );
}

#[test]
fn render_offset_1_0() {
    test_render(
        "ABC",
        1,
        0,
        &[
            "|11  11  |",
            "|1 1 1   |",
            "|11  1   |",
            "|1 1 1   |",
            "|11  11  |",
        ],
    );
}

#[test]
fn render_offset_1_8() {
    test_render(
        "ABC",
        1,
        8,
        &[
            "|        |",
            "|        |",
            "|        |",
            "|        |",
            "|        |",
        ],
    );
}

#[test]
fn render_offset_2_0() {
    test_render(
        "ABC",
        2,
        0,
        &[
            "|11      |",
            "|1       |",
            "|1       |",
            "|1       |",
            "|11      |",
        ],
    );
}

#[test]
fn render_offset_3_0() {
    test_render(
        "ABC",
        3,
        0,
        &[
            "|        |",
            "|        |",
            "|        |",
            "|        |",
            "|        |",
        ],
    );
}

#[test]
fn render_offset_loop() {
    let mut v: Vec<u8, 64> = Vec::new();
    translate("THIS IS RATHER GOOD", &mut v);

    for off in 0..60 {
        let _rows: Vec<_, 64> = (0..5)
            .map(|row| {
                let o = render(row, 0, off, &v);
                let s = format!("{:#010b}|", o).replace("0b", "|").replace("0", " ");
                println!("{}", s);
                s
            })
            .collect();
        println!();
    }
}

#[test]
fn translate_stops_at_capacity() {
    let mut v: Vec<u8, 64> = Vec::new();
    let text = "9".repeat(70);
    translate(&text, &mut v);
    assert_eq!(v.len(), 64);
    assert!(v.iter().all(|g| *g == 9));

    // a second translation starts from an empty buffer
    translate("A Z", &mut v);
    assert_eq!(&v, &[10, 36, 35]);
}
