use cursor_overlay::input::{
    is_left_click, window_reply, WindowReply, HTTRANSPARENT, WM_DESTROY, WM_LBUTTONDOWN,
    WM_NCHITTEST,
};

const WM_MOUSEMOVE: u32 = 0x0200;
const WM_LBUTTONUP: u32 = 0x0202;
const WM_RBUTTONDOWN: u32 = 0x0204;
const WM_PAINT: u32 = 0x000F;
const WM_QUIT: u32 = 0x0012;

#[test]
fn message_constants_have_the_system_values() {
    assert_eq!(WM_DESTROY, 0x0002);
    assert_eq!(WM_NCHITTEST, 0x0084);
    assert_eq!(WM_LBUTTONDOWN, 0x0201);
    assert_eq!(HTTRANSPARENT, -1);
}

#[test]
fn left_click_detection() {
    assert!(is_left_click(0, 0x201));
    assert!(is_left_click(5, 0x201));
    assert!(!is_left_click(-1, 0x201));
    assert!(!is_left_click(0, WM_RBUTTONDOWN as usize));
    assert!(!is_left_click(0, WM_LBUTTONUP as usize));
    assert!(!is_left_click(0, WM_MOUSEMOVE as usize));
    // only the low 32 bits of the message identify it
    assert!(is_left_click(0, (1usize << 32) | 0x201));
}

#[test]
fn window_replies() {
    assert_eq!(window_reply(0x0002), WindowReply::Quit);
    assert_eq!(window_reply(0x0084), WindowReply::HitTest(-1));
    assert_eq!(window_reply(WM_PAINT), WindowReply::Default);
    assert_eq!(window_reply(WM_QUIT), WindowReply::Default);
}
