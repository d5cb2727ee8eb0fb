use git_credential_keepassxc::encryption::{Encryption, ProfileError};

fn parts(profile: Encryption) -> (Option<u32>, u8, String, bool) {
    match profile {
        Encryption::ChallengeResponse { serial, slot, challenge, response } => {
            (serial, slot, challenge, response.is_some())
        },
        Encryption::DirectKey { .. } => panic!("a token profile was asked for"),
    }
}

#[test]
fn profile_with_slot_and_challenge() {
    let made = Encryption::from_str("challenge-response:1:my challenge", Some(7)).ok().unwrap();
    assert_eq!(parts(made), (Some(7), 1, "my challenge".to_string(), false));
}

#[test]
fn profile_defaults_to_the_second_slot() {
    let (serial, slot, challenge, cached) =
        parts(Encryption::from_str("challenge-response", None).ok().unwrap());
    assert_eq!(serial, None);
    assert_eq!(slot, 2);
    assert!(!cached);
    assert_eq!(challenge.chars().count(), 64);
    assert!(challenge.chars().all(|c| c.is_ascii_alphanumeric()));
}

#[test]
fn made_up_challenges_differ() {
    let (_, _, first, _) = parts(Encryption::from_str("challenge-response:2", None).ok().unwrap());
    let (_, _, second, _) = parts(Encryption::from_str("challenge-response:2", None).ok().unwrap());
    assert_eq!(first.len(), 64);
    assert_ne!(first, second);
}

#[test]
fn profile_ignores_what_follows_the_challenge() {
    let made = Encryption::from_str("challenge-response:2:abc:def", None).ok().unwrap();
    assert_eq!(parts(made), (None, 2, "abc".to_string(), false));
}

#[test]
fn profile_takes_an_empty_challenge_as_given() {
    let made = Encryption::from_str("challenge-response:1:", None).ok().unwrap();
    assert_eq!(parts(made), (None, 1, String::new(), false));
}

#[test]
fn profile_slot_is_read_as_a_number() {
    assert_eq!(parts(Encryption::from_str("challenge-response:+1:c", None).ok().unwrap()).1, 1);
    assert_eq!(parts(Encryption::from_str("challenge-response:002:c", None).ok().unwrap()).1, 2);
}

#[test]
fn profile_slot_out_of_range() {
    assert_eq!(Encryption::from_str("challenge-response:3", None).err(), Some(ProfileError::SlotOutOfRange));
    assert_eq!(Encryption::from_str("challenge-response:0", None).err(), Some(ProfileError::SlotOutOfRange));
    assert_eq!(Encryption::from_str("challenge-response:255:c", None).err(), Some(ProfileError::SlotOutOfRange));
}

#[test]
fn profile_slot_not_a_number() {
    assert_eq!(Encryption::from_str("challenge-response:x", None).err(), Some(ProfileError::SlotNotANumber));
    assert_eq!(Encryption::from_str("challenge-response:", None).err(), Some(ProfileError::SlotNotANumber));
    assert_eq!(Encryption::from_str("challenge-response:256", None).err(), Some(ProfileError::SlotNotANumber));
    assert_eq!(Encryption::from_str("challenge-response:-1", None).err(), Some(ProfileError::SlotNotANumber));
    assert_eq!(Encryption::from_str("challenge-response: 1", None).err(), Some(ProfileError::SlotNotANumber));
}

#[test]
fn unknown_profile() {
    assert_eq!(Encryption::from_str("password", None).err(), Some(ProfileError::UnknownProfile));
    assert_eq!(Encryption::from_str("", None).err(), Some(ProfileError::UnknownProfile));
    assert_eq!(Encryption::from_str("Challenge-Response:1", None).err(), Some(ProfileError::UnknownProfile));
    assert_eq!(Encryption::from_str("challenge-response2:1", None).err(), Some(ProfileError::UnknownProfile));
}

#[test]
fn names_token_looks_at_the_first_field() {
    assert!(Encryption::names_token("challenge-response"));
    assert!(Encryption::names_token("challenge-response:9:x"));
    assert!(!Encryption::names_token("other:challenge-response"));
    assert!(!Encryption::names_token(""));
}
