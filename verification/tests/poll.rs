use golemian::poll::{letter_emoji, plan_poll, PollError, PollPlan};

#[test]
fn yes_no_poll() {
    match plan_poll("  Voulez-vous un événement ce week-end ?  ").ok().unwrap() {
        PollPlan::YesNo { question } => {
            assert_eq!(question, "Voulez-vous un événement ce week-end ?")
        }
        _ => panic!("expected a yes/no poll"),
    }
}

#[test]
fn multiple_choice_poll() {
    match plan_poll("Quel jeu jouer ? | Minecraft | Valorant | League of Legends").ok().unwrap() {
        PollPlan::Choices { question, lines, count } => {
            assert_eq!(question, "Quel jeu jouer ?");
            assert_eq!(count, 3);
            assert_eq!(lines, "🇦 Minecraft\n🇧 Valorant\n🇨 League of Legends");
        }
        _ => panic!("expected choices"),
    }
}

#[test]
fn empty_choices_are_kept() {
    match plan_poll("Q||b|").ok().unwrap() {
        PollPlan::Choices { lines, count, .. } => {
            assert_eq!(count, 3);
            assert_eq!(lines, "🇦 \n🇧 b\n🇨 ");
        }
        _ => panic!("expected choices"),
    }
}

#[test]
fn poll_errors() {
    assert_eq!(plan_poll("   ").err(), Some(PollError::Usage));
    assert_eq!(plan_poll(" | a | b").err(), Some(PollError::EmptyQuestion));
    assert_eq!(plan_poll("Q|1|2|3|4|5|6|7|8|9|10").err(), Some(PollError::TooManyChoices));
    assert!(plan_poll("Q|1|2|3|4|5|6|7|8|9").is_ok());
}

#[test]
fn letters() {
    assert_eq!(letter_emoji(0), "🇦");
    assert_eq!(letter_emoji(8), "🇮");
}
