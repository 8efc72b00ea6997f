use dynamin::win32::{
    window_styles, GET_X_LPARAM, GET_Y_LPARAM, HIWORD, LOWORD, WS_BORDER, WS_DLGFRAME,
    WS_EX_TOOLWINDOW, WS_MINIMIZEBOX, WS_SYSMENU, WS_THICKFRAME,
};
use dynamin::WindowBorderStyle;

#[test]
fn words_of_a_parameter() {
    assert_eq!(LOWORD(0x1234_5678), 0x5678);
    assert_eq!(HIWORD(0x1234_5678), 0x1234);
    assert_eq!(LOWORD(0), 0);
    assert_eq!(HIWORD(0xffff_0000), 0xffff);
}

#[test]
fn signed_coordinates_of_a_parameter() {
    assert_eq!(GET_X_LPARAM(0x0005_0003), 3);
    assert_eq!(GET_Y_LPARAM(0x0005_0003), 5);
    assert_eq!(GET_X_LPARAM(0xffff), -1);
    assert_eq!(GET_Y_LPARAM(0x8000_0000), -32768);
    assert_eq!(GET_X_LPARAM(0x7fff), 32767);
}

#[test]
fn window_styles_follow_border_and_resizability() {
    let framed = WS_DLGFRAME | WS_BORDER | WS_SYSMENU;
    assert_eq!(
        window_styles(0, 0, WindowBorderStyle::Normal, true),
        (framed | WS_THICKFRAME | WS_MINIMIZEBOX, 0)
    );
    assert_eq!(window_styles(0, 0, WindowBorderStyle::Normal, false), (framed | WS_MINIMIZEBOX, 0));
    assert_eq!(
        window_styles(WS_MINIMIZEBOX | 1, 0, WindowBorderStyle::Tool, true),
        (framed | WS_THICKFRAME | 1, WS_EX_TOOLWINDOW)
    );
    assert_eq!(
        window_styles(framed | WS_THICKFRAME | WS_MINIMIZEBOX, WS_EX_TOOLWINDOW | 4, WindowBorderStyle::Borderless, true),
        (0, 4)
    );
}
