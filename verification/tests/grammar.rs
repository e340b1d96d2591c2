//! Differential tests: the line tokenizer against the same rules written as
//! regular expressions, over a battery of ordinary and adversarial lines.

use pokebin::lines::{classify_line, parse_header, AllocKind, Gender, LineClass};

const HEAD_PATTERN: &str = r#"^(?:(.* \()([A-Z][a-z0-9:']+\.?(?:[- ][A-Za-z][a-z0-9:']*\.?)*)(\))|([A-Z][a-z0-9:']+\.?(?:[- ][A-Za-z][a-z0-9:']*\.?)*))(?:( \()([MF])(\)))?(?:( @ )([A-Z][a-z0-9:']*(?:[- ][A-Z][a-z0-9:']*)*))?( *)$"#;

const MOVE_PATTERN: &str = r#"^(-)( ([A-Z][a-z\']*(?:[- ][A-Za-z][a-z\']*)*)(?: \[([A-Z][a-z]+)\])?(?: / [A-Z][a-z\']*(?:[- ][A-Za-z][a-z\']*)*)* *)$"#;

const STAT_PATTERN: &str = r#"^(\d+ HP)?( / )?(\d+ Atk)?( / )?(\d+ Def)?( / )?(\d+ SpA)?( / )?(\d+ SpD)?( / )?(\d+ Spe)?( *)$"#;

fn header_by_regex(line: &str) -> Option<(Option<String>, String, Option<char>, Option<String>)> {
    let re = regex::Regex::new(HEAD_PATTERN).unwrap();
    let caps = re.captures(line)?;
    let (nickname, species) = match caps.get(2) {
        Some(sp) => {
            let open = caps.get(1).unwrap().as_str();
            let nick = open[..open.len() - 2].to_string();
            (Some(nick), sp.as_str().to_string())
        }
        None => (None, caps.get(4).unwrap().as_str().to_string()),
    };
    let gender = caps.get(6).map(|g| g.as_str().chars().next().unwrap());
    let item = caps.get(9).map(|i| i.as_str().to_string());
    Some((nickname, species, gender, item))
}

#[test]
fn header_matches_pattern_rules() {
    let battery = [
        "Garchomp",
        "Garchomp ",
        "Garchomp @ Rocky Helmet",
        "Chompy (Garchomp)",
        "Chompy (Garchomp) (F)",
        "Chompy (Garchomp) (F) @ Rocky Helmet",
        "My (Cool) Nick (Garchomp) (M) @ Leftovers",
        "Mr. Mime",
        "Mr. Mime (M)",
        "Ho-Oh @ Sacred Ash",
        "Type: Null",
        "Farfetch'd (F)",
        "Tapu Koko",
        "Nido F",
        "Pikachu (M) @ Light Ball",
        "Garchomp @ Rocky Helmet (M)",
        "A @ B (Pikachu)",
        "A (Pikachu) @ Rocky",
        " (Pikachu)",
        "(Pikachu)",
        "Koko)",
        "X ()",
        "lowercase",
        "",
        "   ",
        "- Earthquake",
        "two words but (no) structure here",
        "Nick (X)",
        "Nick (Xy)",
        "Nick (Xy) extra",
        "Porygon2",
        "Porygon-Z",
        "Jangmo-o",
        "Kommo-o @ Roseli Berry",
        "Indeedee-F",
        "Great Tusk",
        "Pika @ Item Name",
        "Pika @ item",
        "Pika @ X",
    ];
    for line in battery {
        let expected = header_by_regex(line);
        let got = parse_header(line);
        match (&expected, &got) {
            (None, None) => {}
            (Some((nick, species, gender, item)), Some(h)) => {
                assert_eq!(h.nickname.as_deref(), nick.as_deref(), "nickname of {:?}", line);
                assert_eq!(&h.species, species, "species of {:?}", line);
                let g = h.gender.map(|g| match g {
                    Gender::Male => 'M',
                    Gender::Female => 'F',
                });
                assert_eq!(g, *gender, "gender of {:?}", line);
                assert_eq!(h.item.as_deref(), item.as_deref(), "item of {:?}", line);
            }
            _ => panic!("header mismatch on {:?}: regex {:?}, tokenizer {:?}", line, expected.is_some(), got.is_some()),
        }
    }
}

#[test]
fn move_lines_match_pattern_rules() {
    let re = regex::Regex::new(MOVE_PATTERN).unwrap();
    let battery = [
        "- Earthquake",
        "- Stone Edge",
        "- Hidden Power [Ice]",
        "- Hidden Power [ice]",
        "- Hidden Power [I]",
        "- Hidden Power [Ice",
        "- Surf / Thunderbolt / Ice Beam",
        "- Surf / thunderbolt",
        "- U-turn",
        "- Will-O-Wisp",
        "- Double-Edge  ",
        "- X",
        "- x",
        "-Earthquake",
        "-  Earthquake",
        "- Earthquake extra [Ice]",
        "- King's Shield",
        "- Trick / ",
        "- Trick /",
        "- A-",
        "- A [Ice] / Surf",
        "Earthquake",
    ];
    for line in battery {
        let expected = re.captures(line).map(|caps| {
            (
                caps.get(3).unwrap().as_str().to_string(),
                caps.get(4).map(|t| t.as_str().to_string()),
            )
        });
        match (expected, classify_line(line)) {
            (Some((name, hp)), LineClass::MoveL(m)) => {
                assert_eq!(m.name, name, "move name of {:?}", line);
                assert_eq!(m.hp_type, hp, "bracket type of {:?}", line);
            }
            (None, LineClass::MoveL(_)) => panic!("tokenizer over-accepts {:?}", line),
            (Some(_), _) => panic!("tokenizer under-accepts {:?}", line),
            (None, _) => {}
        }
    }
}

#[test]
fn alloc_lines_match_pattern_rules() {
    let re = regex::Regex::new(STAT_PATTERN).unwrap();
    let battery = [
        "252 HP / 252 Atk / 4 SpD",
        "252 HP",
        "4 Def / 252 SpA / 252 Spe",
        "0 Atk / 30 Spe",
        "252 Spe / 252 HP",
        "252 HP252 Atk",
        " / 252 Atk",
        " / ",
        "",
        "   ",
        "252 HP / ",
        "252 Hp",
        "252HP",
        "1 HP / 2 Atk / 3 Def / 4 SpA / 5 SpD / 6 Spe",
        "252 SpA / 4 SpD",
        "252 Spe ",
    ];
    for body in battery {
        let line = format!("EVs: {}", body);
        let expected = re.captures(body).map(|caps| {
            let slot = |i: usize| -> Option<u32> {
                caps.get(i).map(|m| {
                    let digits: String =
                        m.as_str().chars().take_while(|c| c.is_ascii_digit()).collect();
                    digits.parse().unwrap()
                })
            };
            (slot(1), slot(3), slot(5), slot(7), slot(9), slot(11))
        });
        match (expected, classify_line(&line)) {
            (Some(slots), LineClass::AllocL(a)) => {
                assert!(matches!(a.kind, AllocKind::Ev));
                assert_eq!(
                    (a.hp, a.atk, a.def, a.spa, a.spd, a.spe),
                    slots,
                    "slots of {:?}",
                    line
                );
            }
            (None, LineClass::AllocL(_)) => panic!("tokenizer over-accepts {:?}", line),
            (Some(_), c) => panic!(
                "tokenizer under-accepts {:?} ({})",
                line,
                matches!(c, LineClass::Plain)
            ),
            (None, _) => {}
        }
    }
}
