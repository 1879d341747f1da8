use cairo_vm::alphas::{Alphas, ArgumentType};
use cairo_vm::felt::Felt;

#[test]
fn incorrect_alpha_powers() {
    let mut alphas = Alphas::default();
    alphas.register(ArgumentType::Gate, 3);

    let mut powers = alphas.get_exponents(ArgumentType::Gate, 3);
    assert_eq!(powers.next(), Some(0));
    assert_eq!(powers.next(), Some(1));
    assert_eq!(powers.next(), Some(2));

    alphas.register(ArgumentType::Permutation, 3);
    let mut powers = alphas.get_exponents(ArgumentType::Permutation, 3);

    assert_eq!(powers.next(), Some(3));
    assert_eq!(powers.next(), Some(4));
    assert_eq!(powers.next(), Some(5));
}

#[test]
fn powers_of_alpha() {
    let mut alphas = Alphas::default();
    alphas.register(ArgumentType::Gate, 4);
    let mut powers = alphas.get_exponents(ArgumentType::Gate, 4);

    assert_eq!(powers.next(), Some(0));
    assert_eq!(powers.next(), Some(1));
    assert_eq!(powers.next(), Some(2));
    assert_eq!(powers.next(), Some(3));

    let alpha = Felt::from_u64(2);
    alphas.instantiate(alpha);

    let mut alphas = alphas.get_alphas(ArgumentType::Gate, 4);
    assert_eq!(alphas.next(), Some(Felt::from_u64(1)));
    assert_eq!(alphas.next(), Some(Felt::from_u64(2)));
    assert_eq!(alphas.next(), Some(Felt::from_u64(4)));
    assert_eq!(alphas.next(), Some(Felt::from_u64(8)));
}

#[test]
fn exponents_are_bounded_by_the_range() {
    let mut alphas = Alphas::new();
    alphas.register(ArgumentType::Lookup, 2);
    let mut powers = alphas.get_exponents(ArgumentType::Lookup, 5);
    assert_eq!(powers.next(), Some(0));
    assert_eq!(powers.next(), Some(1));
    assert!(powers.is_consumed());
    assert_eq!(powers.next(), None);
}

#[test]
fn alphas_by_range_after_other_kinds() {
    let mut alphas = Alphas::new();
    alphas.register(ArgumentType::Gate, 2);
    alphas.register(ArgumentType::Permutation, 3);
    alphas.instantiate(Felt::from_u64(3));
    let mut perm = alphas.get_alphas(ArgumentType::Permutation, 2);
    assert_eq!(perm.next(), Some(Felt::from_u64(9)));
    assert_eq!(perm.next(), Some(Felt::from_u64(27)));
    assert!(perm.is_consumed());
    assert!(!alphas.get_alphas(ArgumentType::Permutation, 3).is_consumed());
}
