use telebots::blocks::{Block, Cell, Line, RenderBlock};

#[test]
fn plain_text_lines_join_with_newlines() {
    let mut b = Block::new();
    b.line("hello").line("world");
    assert_eq!(b.build(), "hello\nworld");
}

#[test]
fn kv_formats_key_value() {
    let mut b = Block::new();
    b.kv("Price", "$100");
    assert_eq!(b.build(), "Price: $100");
}

#[test]
fn blank_lines_separate() {
    let mut b = Block::new();
    b.line("a").blank().line("b");
    assert_eq!(b.build(), "a\n\nb");
}

#[test]
fn rows_align_by_column() {
    let mut b = Block::new();
    b.row(vec![Cell::new("BTC"), Cell::right("$95,432.1")]);
    b.row(vec![Cell::new("ETH"), Cell::right("$3,500")]);
    assert_eq!(b.build(), "BTC  $95,432.1\nETH     $3,500");
}

#[test]
fn center_alignment_splits_padding() {
    let c = Cell::center("x");
    assert_eq!(c.render_padded(4), " x  ");
}

#[test]
fn monospace_wraps_in_fence() {
    let mut b = Block::new();
    b.line("a").line("b");
    assert_eq!(b.render_monospace(), "```\na\nb\n```");
}

#[test]
fn truncate_drops_tail_lines() {
    let mut b = Block::new();
    b.line("1234567890").line("abcdefghij").line("klmnopqrst");
    assert_eq!(b.truncate(15).build(), "1234567890\n…");
}

#[test]
fn truncate_hard_cuts_an_oversized_single_line() {
    let mut b = Block::new();
    b.line("abcdefghij");
    assert_eq!(b.truncate(5).build(), "abcd…");
}

#[test]
fn truncate_keeps_blocks_that_fit() {
    let mut b = Block::new();
    b.line("abc").line("def");
    assert_eq!(b.truncate(100).build(), "abc\ndef");
}

#[test]
fn ellipsize_line() {
    let mut l = Line::text("abcdefghij");
    l.ellipsize(5);
    let mut b = Block::new();
    b.push(l);
    assert_eq!(b.build(), "abcd…");
}

#[test]
fn render_block_composes() {
    struct Price(f64);
    impl RenderBlock for Price {
        fn render_block(&self, out: &mut Block) {
            out.kv("Price", &self.0.to_string());
        }
    }

    let mut b = Block::new();
    b.push_block(Price(95_000.0).to_block());
    assert_eq!(b.build(), "Price: 95000");
}

#[test]
fn ellipsize_row_joins_cells_before_cutting() {
    let mut l = Line::row(vec![Cell::new("abc"), Cell::right("defgh")]);
    l.ellipsize(6);
    let mut b = Block::new();
    b.push(l);
    assert_eq!(b.build(), "abc  …");
}

#[test]
fn ellipsize_keeps_short_and_blank_lines() {
    let mut l = Line::text("abc");
    l.ellipsize(10);
    let mut blank = Line::blank();
    blank.ellipsize(0);
    let mut b = Block::new();
    b.push(l).push(blank).line("x");
    assert_eq!(b.build(), "abc\n\nx");
}

#[test]
fn truncate_cuts_a_single_wide_row() {
    let mut b = Block::new();
    b.row(vec![Cell::new("abcdef"), Cell::new("ghijkl")]);
    assert_eq!(b.truncate(8).build(), "abcdef …");
}

#[test]
fn rows_with_fewer_cells_still_align() {
    let mut b = Block::new();
    b.row(vec![Cell::new("a"), Cell::new("bb"), Cell::right("c")]);
    b.row(vec![Cell::new("dddd")]);
    b.line("text");
    assert_eq!(b.build(), "a     bb  c\ndddd\ntext");
}

#[test]
fn center_puts_odd_space_right_and_wide_cells_are_not_padded() {
    assert_eq!(Cell::center("ab").render_padded(5), " ab  ");
    assert_eq!(Cell::left("abcdef").render_padded(3), "abcdef");
    assert_eq!(Cell::right("7").render_padded(3), "  7");
    assert_eq!(Cell::new("x").text(), "x");
}

#[test]
fn trailing_blank_lines_are_dropped_from_the_rendering() {
    let mut b = Block::new();
    b.line("a").blank().blank();
    assert_eq!(b.build(), "a");
    assert_eq!(Block::new().build(), "");
    assert_eq!(Block::default().render_monospace(), "```\n\n```");
}
