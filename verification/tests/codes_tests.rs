use evdev::KeyCode;
use keylayout::codes;

#[test]
fn codes_match_the_input_subsystem() {
    assert_eq!(codes::KEY_1, KeyCode::KEY_1.code());
    assert_eq!(codes::KEY_2, KeyCode::KEY_2.code());
    assert_eq!(codes::KEY_3, KeyCode::KEY_3.code());
    assert_eq!(codes::KEY_4, KeyCode::KEY_4.code());
    assert_eq!(codes::KEY_5, KeyCode::KEY_5.code());
    assert_eq!(codes::KEY_6, KeyCode::KEY_6.code());
    assert_eq!(codes::KEY_7, KeyCode::KEY_7.code());
    assert_eq!(codes::KEY_8, KeyCode::KEY_8.code());
    assert_eq!(codes::KEY_9, KeyCode::KEY_9.code());
    assert_eq!(codes::KEY_0, KeyCode::KEY_0.code());
    assert_eq!(codes::KEY_MINUS, KeyCode::KEY_MINUS.code());
    assert_eq!(codes::KEY_EQUAL, KeyCode::KEY_EQUAL.code());
    assert_eq!(codes::KEY_Q, KeyCode::KEY_Q.code());
    assert_eq!(codes::KEY_W, KeyCode::KEY_W.code());
    assert_eq!(codes::KEY_E, KeyCode::KEY_E.code());
    assert_eq!(codes::KEY_R, KeyCode::KEY_R.code());
    assert_eq!(codes::KEY_T, KeyCode::KEY_T.code());
    assert_eq!(codes::KEY_Y, KeyCode::KEY_Y.code());
    assert_eq!(codes::KEY_U, KeyCode::KEY_U.code());
    assert_eq!(codes::KEY_I, KeyCode::KEY_I.code());
    assert_eq!(codes::KEY_O, KeyCode::KEY_O.code());
    assert_eq!(codes::KEY_P, KeyCode::KEY_P.code());
    assert_eq!(codes::KEY_LEFTBRACE, KeyCode::KEY_LEFTBRACE.code());
    assert_eq!(codes::KEY_RIGHTBRACE, KeyCode::KEY_RIGHTBRACE.code());
    assert_eq!(codes::KEY_A, KeyCode::KEY_A.code());
    assert_eq!(codes::KEY_S, KeyCode::KEY_S.code());
    assert_eq!(codes::KEY_D, KeyCode::KEY_D.code());
    assert_eq!(codes::KEY_F, KeyCode::KEY_F.code());
    assert_eq!(codes::KEY_G, KeyCode::KEY_G.code());
    assert_eq!(codes::KEY_H, KeyCode::KEY_H.code());
    assert_eq!(codes::KEY_J, KeyCode::KEY_J.code());
    assert_eq!(codes::KEY_K, KeyCode::KEY_K.code());
    assert_eq!(codes::KEY_L, KeyCode::KEY_L.code());
    assert_eq!(codes::KEY_SEMICOLON, KeyCode::KEY_SEMICOLON.code());
    assert_eq!(codes::KEY_APOSTROPHE, KeyCode::KEY_APOSTROPHE.code());
    assert_eq!(codes::KEY_GRAVE, KeyCode::KEY_GRAVE.code());
    assert_eq!(codes::KEY_BACKSLASH, KeyCode::KEY_BACKSLASH.code());
    assert_eq!(codes::KEY_Z, KeyCode::KEY_Z.code());
    assert_eq!(codes::KEY_X, KeyCode::KEY_X.code());
    assert_eq!(codes::KEY_C, KeyCode::KEY_C.code());
    assert_eq!(codes::KEY_V, KeyCode::KEY_V.code());
    assert_eq!(codes::KEY_B, KeyCode::KEY_B.code());
    assert_eq!(codes::KEY_N, KeyCode::KEY_N.code());
    assert_eq!(codes::KEY_M, KeyCode::KEY_M.code());
    assert_eq!(codes::KEY_COMMA, KeyCode::KEY_COMMA.code());
    assert_eq!(codes::KEY_DOT, KeyCode::KEY_DOT.code());
    assert_eq!(codes::KEY_SLASH, KeyCode::KEY_SLASH.code());
    assert_eq!(codes::KEY_SPACE, KeyCode::KEY_SPACE.code());
}
