use arcstr::Substr;
use num_bigint::{BigInt, BigUint};
use par_lang::builtin::action::Action;
use par_lang::builtin::integer::{
    int_abs, int_clamp, int_from_string, int_max, int_min, int_mod, int_range,
};

fn whole(n: i64) -> BigInt {
    BigInt::from(n)
}

fn natural(n: u64) -> BigUint {
    BigUint::from(n)
}

#[test]
fn remainders_round_down() {
    assert_eq!(int_mod(whole(7), natural(3)), natural(1));
    assert_eq!(int_mod(whole(-7), natural(3)), natural(2));
    assert_eq!(int_mod(whole(-6), natural(3)), natural(0));
    assert_eq!(int_mod(whole(7), natural(0)), natural(0));
    assert_eq!(int_mod(whole(-7), natural(0)), natural(0));
}

#[test]
fn lesser_and_greater() {
    assert_eq!(int_min(whole(2), whole(-3)), whole(-3));
    assert_eq!(int_min(whole(-3), whole(2)), whole(-3));
    assert_eq!(int_max(whole(2), whole(-3)), whole(2));
    assert_eq!(int_max(whole(-3), whole(2)), whole(2));
}

#[test]
fn clamp_between_bounds() {
    assert_eq!(int_clamp(whole(5), whole(1), whole(3)), whole(3));
    assert_eq!(int_clamp(whole(-5), whole(1), whole(3)), whole(1));
    assert_eq!(int_clamp(whole(2), whole(1), whole(3)), whole(2));
    assert_eq!(int_clamp(whole(2), whole(3), whole(1)), whole(3));
}

#[test]
fn absolute_values() {
    assert_eq!(int_abs(whole(-5)), natural(5));
    assert_eq!(int_abs(whole(5)), natural(5));
    assert_eq!(int_abs(whole(0)), natural(0));
}

fn items(lo: i64, hi: i64) -> Vec<BigInt> {
    let mut found = Vec::new();
    let hi = whole(hi);
    let mut i = whole(lo);
    loop {
        let (said, next) = int_range(i, &hi);
        match (said.as_slice(), next) {
            ([Action::Signal("item"), Action::SendInt(n)], Some(next)) => {
                found.push(n.clone());
                i = next;
            }
            ([Action::Signal("end"), Action::Break], None) => return found,
            (said, _) => panic!("{:?}", said),
        }
    }
}

#[test]
fn ranges_leave_out_their_end() {
    assert_eq!(items(-1, 3), vec![whole(-1), whole(0), whole(1), whole(2)]);
    assert_eq!(items(3, 3), vec![]);
    assert_eq!(items(4, 3), vec![]);
}

#[test]
fn numbers_from_strings() {
    match int_from_string(Substr::from("-120")).as_slice() {
        [Action::Signal("some"), Action::ProvideInt(n)] => assert_eq!(*n, whole(-120)),
        said => panic!("{:?}", said),
    }
    for text in ["", "-", "1x", "+-1", "_1"] {
        match int_from_string(Substr::from(text)).as_slice() {
            [Action::Signal("none"), Action::Break] => {}
            said => panic!("{:?}", said),
        }
    }
    match int_from_string(Substr::from("+1_0")).as_slice() {
        [Action::Signal("some"), Action::ProvideInt(n)] => assert_eq!(*n, whole(10)),
        said => panic!("{:?}", said),
    }
}
