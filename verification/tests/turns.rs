use wasm_link::turns::Turns;

#[test]
fn callers_that_wait_once_are_served_in_arrival_order() {
	let mut turns = Turns::new();
	assert!(turns.is_idle());
	turns.arrive(3);
	turns.arrive(1);
	turns.arrive(2);
	assert_eq!(turns.serve(), Some(3));
	assert_eq!(turns.serve(), Some(1));
	assert_eq!(turns.serve(), Some(2));
	assert_eq!(turns.serve(), None);
	assert!(turns.is_idle());
}

#[test]
fn a_busy_caller_moves_behind_the_others() {
	let mut turns = Turns::new();
	turns.arrive(7);
	turns.arrive(7);
	turns.arrive(7);
	turns.arrive(8);
	turns.arrive(9);
	let order: Vec<Option<u64>> = (0..6).map(|_| turns.serve()).collect();
	assert_eq!(order, vec![Some(7), Some(8), Some(9), Some(7), Some(7), None]);
}
