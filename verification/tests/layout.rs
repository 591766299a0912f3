use efbench_client::layout::{frame_sizes, halves, place, ui_layout, Area, Size};

fn inside(part: Area, whole: Area) -> bool {
    whole.x <= part.x
        && whole.y <= part.y
        && part.x as u32 + part.width as u32 <= whole.x as u32 + whole.width as u32
        && part.y as u32 + part.height as u32 <= whole.y as u32 + whole.height as u32
}

#[test]
fn sizes_of_the_cuts() {
    assert_eq!(frame_sizes(), [Size::Length(3), Size::Min(0), Size::Length(3)]);
    assert_eq!(halves(), [Size::Ratio(1, 2), Size::Ratio(1, 2)]);
}

#[test]
fn parts_go_to_their_places() {
    let at = |n: u16| Area { x: n, y: n, width: 1, height: 1 };
    let layout = place(&vec![at(0), at(1), at(2)], &vec![at(3), at(4)], &vec![at(5), at(6)]);
    assert_eq!(layout.header, at(0));
    assert_eq!(layout.footer, at(2));
    assert_eq!(layout.latency, at(3));
    assert_eq!(layout.rx, at(4));
    assert_eq!(layout.throughput, at(5));
    assert_eq!(layout.tx, at(6));
}

#[test]
fn a_usual_screen() {
    let layout = ui_layout(Area { x: 0, y: 0, width: 80, height: 26 });
    assert_eq!(layout.header, Area { x: 0, y: 0, width: 80, height: 3 });
    assert_eq!(layout.latency, Area { x: 0, y: 3, width: 40, height: 10 });
    assert_eq!(layout.throughput, Area { x: 40, y: 3, width: 40, height: 10 });
    assert_eq!(layout.rx, Area { x: 0, y: 13, width: 40, height: 10 });
    assert_eq!(layout.tx, Area { x: 40, y: 13, width: 40, height: 10 });
    assert_eq!(layout.footer, Area { x: 0, y: 23, width: 80, height: 3 });
}

#[test]
fn every_screen_is_respected() {
    let corners = [(0, 0), (3, 5), (65500, 65400), (65535, 65535)];
    let widths = [0, 1, 2, 3, 79, 80, 81, 200];
    for height in (0..60).chain([119, 120, 200]) {
        for width in widths {
            for (x, y) in corners {
                check_screen(Area { x, y, width, height });
            }
        }
    }
}

fn check_screen(screen: Area) {
    let Area { x, y, width, height } = screen;
    let layout = ui_layout(screen);
    for part in [layout.header, layout.latency, layout.throughput, layout.rx, layout.tx, layout.footer] {
        assert!(inside(part, screen), "{part:?} in {screen:?}");
    }
    for part in [layout.header, layout.footer] {
        assert_eq!((part.x, part.width), (x, width));
    }
    let cells = width.min(65535 - x);
    let left = (cells + 1) / 2;
    for (part, at) in [(layout.latency, 0), (layout.rx, 0), (layout.throughput, 1), (layout.tx, 1)] {
        let expected = if at == 0 { (x, left) } else { (x + left, cells - left) };
        assert_eq!((part.x, part.width), expected, "{screen:?}");
    }
    assert_eq!(layout.rx.y, layout.latency.y + layout.latency.height);
    assert_eq!((layout.throughput.y, layout.throughput.height), (layout.latency.y, layout.latency.height));
    assert_eq!((layout.tx.y, layout.tx.height), (layout.rx.y, layout.rx.height));
    let lines = height.min(65535 - y);
    if lines >= 6 {
        let top = (lines - 5) / 2;
        assert_eq!((layout.header.y, layout.header.height), (y, 3), "{screen:?}");
        assert_eq!((layout.footer.y, layout.footer.height), (y + lines - 3, 3), "{screen:?}");
        assert_eq!((layout.latency.y, layout.latency.height), (y + 3, top), "{screen:?}");
        assert_eq!((layout.rx.y, layout.rx.height), (y + 3 + top, lines - 6 - top), "{screen:?}");
    } else {
        assert_eq!(layout.header.y, y, "{screen:?}");
        assert!(layout.header.height <= 3 && layout.footer.height <= 3, "{layout:?}");
        assert_eq!(layout.footer.y, y + layout.header.height, "{screen:?}");
        assert_eq!(layout.header.height + layout.footer.height, lines, "{screen:?}");
        assert_eq!((layout.latency.y, layout.latency.height), (layout.footer.y, 0), "{screen:?}");
        assert_eq!((layout.rx.y, layout.rx.height), (layout.footer.y, 0), "{screen:?}");
    }
}
