use glyphmenu::error::MenuError;
use glyphmenu::font::{make_font, Rgba};
use glyphmenu::panel::{
    make_panel, panel_put_char, panel_set_cursor_pos, panel_write_string, write_box, Panel,
};

fn green() -> Rgba {
    Rgba { r: 0, g: 255, b: 0, a: 255 }
}

fn black() -> Rgba {
    Rgba { r: 0, g: 0, b: 0, a: 255 }
}

fn test_panel(w: u8, h: u8) -> Panel {
    let font = make_font("a2", 6, 8);
    make_panel(40, 40, green(), Some(black()), font, w, h)
}

#[test]
fn panel_starts_blank_with_cursor_at_origin() {
    let p = test_panel(16, 16);
    assert_eq!(p.char_width, 16);
    assert_eq!(p.char_height, 16);
    assert_eq!(p.cursor_x, 0);
    assert_eq!(p.cursor_y, 0);
    for row in &p.chars {
        assert_eq!(row.len(), 16);
        for &c in row {
            assert_eq!(c, ' ');
        }
    }
}

#[test]
fn pixel_size_comes_from_font_cells() {
    let p = test_panel(16, 12);
    assert_eq!(p.pixel_width(), 16 * 6);
    assert_eq!(p.pixel_height(), 12 * 8);
}

#[test]
fn write_string_reproduces_chars_in_order() {
    let mut p = test_panel(16, 16);
    assert_eq!(panel_set_cursor_pos(&mut p, 2, 3), Ok(()));
    assert_eq!(panel_write_string(&mut p, "abc"), Ok(()));
    assert_eq!(p.chars[3][2], 'a');
    assert_eq!(p.chars[3][3], 'b');
    assert_eq!(p.chars[3][4], 'c');
    assert_eq!(p.cursor_x, 5);
    assert_eq!(p.cursor_y, 3);
    for (r, row) in p.chars.iter().enumerate() {
        for (c, &ch) in row.iter().enumerate() {
            if r == 3 && (2..5).contains(&c) {
                continue;
            }
            assert_eq!(ch, ' ', "cell ({c},{r}) was altered");
        }
    }
}

#[test]
fn write_string_hello_panel() {
    let mut p = test_panel(16, 16);
    assert_eq!(panel_set_cursor_pos(&mut p, 1, 1), Ok(()));
    assert_eq!(panel_write_string(&mut p, "Hello, Panel!"), Ok(()));
    let row: String = p.chars[1].iter().collect();
    assert_eq!(row, " Hello, Panel!  ");
}

#[test]
fn write_past_last_column_truncates_without_touching_next_row() {
    let mut p = test_panel(16, 16);
    assert_eq!(panel_set_cursor_pos(&mut p, 10, 0), Ok(()));
    let r = panel_write_string(&mut p, "abcdefghijklmnopqrst");
    assert_eq!(r, Err(MenuError::OutOfBounds));
    let row0: String = p.chars[0].iter().collect();
    assert_eq!(row0, "          abcdef");
    for &c in &p.chars[1] {
        assert_eq!(c, ' ', "the write leaked into the next row");
    }
    assert_eq!(p.cursor_x, 15, "the cursor stops on the last column");
    assert_eq!(p.cursor_y, 0);
}

#[test]
fn write_up_to_the_edge_is_complete() {
    let mut p = test_panel(8, 2);
    assert_eq!(panel_set_cursor_pos(&mut p, 4, 0), Ok(()));
    assert_eq!(panel_write_string(&mut p, "wxyz"), Ok(()));
    let row0: String = p.chars[0].iter().collect();
    assert_eq!(row0, "    wxyz");
    assert_eq!(p.cursor_x, 7);
}

#[test]
fn empty_write_changes_nothing() {
    let mut p = test_panel(8, 2);
    assert_eq!(panel_set_cursor_pos(&mut p, 3, 1), Ok(()));
    assert_eq!(panel_write_string(&mut p, ""), Ok(()));
    assert_eq!(p.cursor_x, 3);
    for row in &p.chars {
        for &c in row {
            assert_eq!(c, ' ');
        }
    }
}

#[test]
fn set_cursor_rejects_out_of_bounds() {
    let mut p = test_panel(16, 16);
    assert_eq!(panel_set_cursor_pos(&mut p, 16, 0), Err(MenuError::OutOfBounds));
    assert_eq!(panel_set_cursor_pos(&mut p, 0, 16), Err(MenuError::OutOfBounds));
    assert_eq!(p.cursor_x, 0);
    assert_eq!(p.cursor_y, 0);
    assert_eq!(panel_set_cursor_pos(&mut p, 15, 15), Ok(()));
    assert_eq!(p.cursor_x, 15);
    assert_eq!(p.cursor_y, 15);
}

#[test]
fn put_char_writes_one_cell_and_keeps_the_cursor() {
    let mut p = test_panel(4, 4);
    assert_eq!(panel_put_char(&mut p, '*', 2, 1), Ok(()));
    assert_eq!(p.chars[1][2], '*');
    assert_eq!(p.cursor_x, 0);
    assert_eq!(p.cursor_y, 0);
    assert_eq!(panel_put_char(&mut p, '*', 4, 0), Err(MenuError::OutOfBounds));
    assert_eq!(panel_put_char(&mut p, '*', 0, 4), Err(MenuError::OutOfBounds));
}

#[test]
fn write_box_stamps_a_border() {
    let mut p = test_panel(6, 4);
    assert_eq!(write_box(&mut p, 0, 0, 6, 4), Ok(()));
    let rows: Vec<String> = p.chars.iter().map(|r| r.iter().collect()).collect();
    assert_eq!(rows[0], "+----+");
    assert_eq!(rows[1], "|    |");
    assert_eq!(rows[2], "|    |");
    assert_eq!(rows[3], "+----+");
}

#[test]
fn write_box_leaves_the_interior_alone() {
    let mut p = test_panel(8, 6);
    assert_eq!(panel_set_cursor_pos(&mut p, 2, 2), Ok(()));
    assert_eq!(panel_write_string(&mut p, "hi"), Ok(()));
    assert_eq!(write_box(&mut p, 1, 1, 6, 4), Ok(()));
    assert_eq!(p.chars[2][2], 'h');
    assert_eq!(p.chars[2][3], 'i');
    let row1: String = p.chars[1].iter().collect();
    assert_eq!(row1, " +----+ ");
}

#[test]
fn write_box_smaller_than_two_cells_is_a_noop() {
    let mut p = test_panel(8, 8);
    assert_eq!(write_box(&mut p, 1, 1, 1, 5), Ok(()));
    assert_eq!(write_box(&mut p, 1, 1, 5, 0), Ok(()));
    for row in &p.chars {
        for &c in row {
            assert_eq!(c, ' ');
        }
    }
}

#[test]
fn write_box_past_the_grid_is_rejected_whole() {
    let mut p = test_panel(8, 8);
    assert_eq!(write_box(&mut p, 4, 0, 6, 4), Err(MenuError::OutOfBounds));
    assert_eq!(write_box(&mut p, 0, 6, 4, 4), Err(MenuError::OutOfBounds));
    for row in &p.chars {
        for &c in row {
            assert_eq!(c, ' ');
        }
    }
}

#[test]
fn make_font_keeps_its_metrics() {
    let f = make_font("a2", 6, 8);
    assert_eq!(f.name, "a2");
    assert_eq!(f.width, 6);
    assert_eq!(f.height, 8);
}
