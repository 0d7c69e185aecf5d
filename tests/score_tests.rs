use chainmail::content::Effect;
use chainmail::score::Statistics;

#[test]
fn statistics_start_at_zero() {
    assert_eq!(Statistics::default(), Statistics { score: 0, money: 0, income: 0 });
}

#[test]
fn effects_change_their_field() {
    let mut s = Statistics { score: 1, money: 2, income: 3 };
    s.apply_effect(Effect::Score(10));
    assert_eq!(s, Statistics { score: 11, money: 2, income: 3 });
    s.apply_effect(Effect::Money(-5));
    assert_eq!(s, Statistics { score: 11, money: -3, income: 3 });
    s.apply_effect(Effect::Income(3));
    assert_eq!(s, Statistics { score: 11, money: -3, income: 6 });
    s.apply_effect(Effect::Noop);
    assert_eq!(s, Statistics { score: 11, money: -3, income: 6 });
}

#[test]
fn payroll_pays_income() {
    let mut s = Statistics { score: 0, money: 10, income: 5 };
    s.payroll();
    assert_eq!(s.money, 15);
    assert_eq!(s.income, 5);
    assert_eq!(s.score, 0);
}

#[test]
fn sums_stop_at_the_bounds() {
    let mut s = Statistics { score: i32::MAX - 1, money: i32::MIN + 1, income: -5 };
    s.apply_effect(Effect::Score(10));
    assert_eq!(s.score, i32::MAX);
    s.payroll();
    assert_eq!(s.money, i32::MIN);
}
