use zsh_system::{Hook, HookError};

#[test]
fn adding_the_same_callback_twice_fails() {
    let mut registered: Vec<usize> = vec![0x100];
    assert_eq!(Hook::add("evt", 0x200, Some(&registered)), Ok(()));
    registered.push(0x200);
    assert_eq!(
        Hook::add("evt", 0x200, Some(&registered)),
        Err(HookError::AlreadyExists("evt".to_string()))
    );
}

#[test]
fn adding_to_an_unknown_hook_is_left_to_the_host() {
    assert_eq!(Hook::add("nohook", 0x200, None), Ok(()));
}

#[test]
fn removing_an_unregistered_callback_is_not_found() {
    let registered: Vec<usize> = vec![0x100];
    assert_eq!(
        Hook::remove("evt", 0x300, Some(&registered)),
        Err(HookError::NotFound("Function in hook 'evt'".to_string()))
    );
    assert_eq!(Hook::remove("evt", 0x100, Some(&registered)), Ok(()));
    assert_eq!(
        Hook::remove("nohook", 0x100, None),
        Err(HookError::NotFound("nohook".to_string()))
    );
}

#[test]
fn running_needs_a_known_hook() {
    assert_eq!(Hook::run("evt", true), Ok(()));
    assert_eq!(Hook::run("evt", false), Err(HookError::NotFound("evt".to_string())));
}

#[test]
fn hook_names_with_nul_are_rejected() {
    assert_eq!(Hook::add("e\0vt", 1, None), Err(HookError::InvalidString));
    assert_eq!(Hook::remove("e\0vt", 1, None), Err(HookError::InvalidString));
    assert_eq!(Hook::run("e\0vt", true), Err(HookError::InvalidString));
}

#[test]
fn hook_array_gets_a_placeholder_only_when_empty() {
    assert_eq!(Hook::array_name("precmd"), "precmd_functions");
    assert_eq!(Hook::activation(None), Some(vec![":".to_string()]));
    assert_eq!(Hook::activation(Some(&[])), Some(vec![":".to_string()]));
    assert_eq!(Hook::activation(Some(&["f".to_string()])), None);
}

#[test]
fn listing_keeps_names_that_are_text() {
    let names: Vec<&[u8]> = vec![b"chpwd", &[0xff], b"precmd"];
    assert_eq!(Hook::list(&names), vec!["chpwd", "precmd"]);
}
