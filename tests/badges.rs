use sculptor_core::badges::{BadgeError, Badges, PrideBadges, SpecialBadges};
use sculptor_core::limits::{limits, Limits, RateLimit, ServerLimits};

fn ints(v: &serde_json::Value) -> Vec<u8> {
    v.as_array().unwrap().iter().map(|x| x.as_u64().unwrap() as u8).collect()
}

#[test]
fn test_deserialize() {
    let data: serde_json::Value = serde_json::from_str(
        r#"{
            "rate": {
                "pingSize": 1024,
                "pingRate": 32,
                "equip": 1,
                "download": 50,
                "upload": 1
            },
            "limits": {
                "maxAvatarSize": 1024,
                "maxAvatars": 50,
                "allowedBadges": {
                    "special": [0,0,0,0,0,0],
                    "pride": [1,0,0,0,0,0,0,0,0,0,0,0,0,0,0,0,0,0,0,0,0,0,0,0,0]
                }
            }
        }"#,
    )
    .unwrap();
    let rate = &data["rate"];
    let lim = &data["limits"];
    let badges = &lim["allowedBadges"];
    let res = ServerLimits {
        rate: RateLimit {
            ping_size: rate["pingSize"].as_u64().unwrap(),
            ping_rate: rate["pingRate"].as_u64().unwrap(),
            equip: rate["equip"].as_u64().unwrap(),
            download: rate["download"].as_u64().unwrap(),
            upload: rate["upload"].as_u64().unwrap(),
        },
        limits: Limits {
            max_avatar_size: lim["maxAvatarSize"].as_u64().unwrap(),
            max_avatars: lim["maxAvatars"].as_u64().unwrap(),
            allowed_badges: Badges {
                special: SpecialBadges::from_int_array(&ints(&badges["special"])).unwrap(),
                pride: PrideBadges::from_int_array(&ints(&badges["pride"])).unwrap(),
            },
        },
    };

    println!("{:#?}", res);

    assert!(res.limits.allowed_badges.pride.agender);
}

#[test]
fn test_deserialize_pride() {
    let data: serde_json::Value =
        serde_json::from_str("[1, 0, 0, 0, 0, 0, 0, 0, 0, 0, 0, 0, 0, 0, 0, 0, 0, 0, 0, 0, 0, 0, 0, 1, 1]")
            .unwrap();
    let res = PrideBadges::from_int_array(&ints(&data)).unwrap();

    println!("{:#?}", res);

    assert!(res.pride_flag);
    assert!(res.trans);
    assert!(res.agender);
}

#[test]
fn test_serialize() {
    let mut srv_lm = ServerLimits::default();

    srv_lm.limits.allowed_badges.special.figura_dev = true;

    let special = srv_lm.limits.allowed_badges.special.as_int_array();
    let res = serde_json::to_value(&special).unwrap();

    println!("{:#?}", res);

    assert_eq!(res[0], 1);
    assert_eq!(special, vec![1, 0, 0, 0, 0, 0]);
}

#[test]
fn wrong_length_is_rejected() {
    assert_eq!(
        SpecialBadges::from_int_array(&[1, 0, 0]),
        Err(BadgeError::WrongLength { expected: 6, found: 3 })
    );
    assert_eq!(
        PrideBadges::from_int_array(&[0; 26]),
        Err(BadgeError::WrongLength { expected: 25, found: 26 })
    );
    assert_eq!(
        SpecialBadges::from_flags(&vec![true; 7]),
        Err(BadgeError::WrongLength { expected: 6, found: 7 })
    );
}

#[test]
fn nonzero_sets_flag_and_round_trips() {
    let s = SpecialBadges::from_int_array(&[0, 5, 0, 1, 0, 255]).unwrap();
    assert!(!s.figura_dev && s.figura_mod && !s.contest_winner && s.supporter);
    assert!(!s.translator && s.texture_artist);
    assert_eq!(s.as_int_array(), vec![0, 1, 0, 1, 0, 1]);
    assert_eq!(SpecialBadges::from_int_array(&s.as_int_array()), Ok(s));
    let mut flags = vec![false; 25];
    flags[13] = true;
    flags[24] = true;
    let p = PrideBadges::from_flags(&flags).unwrap();
    assert!(p.gay && p.trans && !p.agender);
    assert!(p.flag(13) && !p.flag(0));
    let back = p.as_int_array();
    assert_eq!(back.iter().filter(|&&x| x == 1).count(), 2);
    assert_eq!(back[24], 1);
}

#[test]
fn announced_limits() {
    let l = limits(1024 * 100, 10);
    assert_eq!(l.rate, RateLimit { ping_size: 1024, ping_rate: 32, equip: 1, download: 50, upload: 1 });
    assert_eq!(l.rate, RateLimit::default());
    assert_eq!(l.limits.max_avatar_size, 102400);
    assert_eq!(l.limits.max_avatars, 10);
    assert_eq!(l.limits.allowed_badges.special.as_int_array(), vec![0; 6]);
    assert_eq!(l.limits.allowed_badges.pride.as_int_array(), vec![0; 25]);
}
