use crust_std::arc::clone_overflows;
use crust_std::arc::drop_frees;
use crust_std::arc::ArcInner;
use crust_std::nonnull::NonNull;
use crust_std::string::String;
use std::cell::Cell;
use std::ops::Deref;
use std::rc::Rc;

struct Counted(Rc<Cell<usize>>);

impl Drop for Counted {
    fn drop(&mut self) {
        self.0.set(self.0.get() + 1);
    }
}

#[test]
fn payload_lives_until_the_last_drop() {
    for k in [0usize, 1, 2, 7] {
        let drops = Rc::new(Cell::new(0));
        let mut block = ArcInner::new(Counted(drops.clone()));
        assert_eq!(block.count(), 1);
        for _ in 0..k {
            block = block.retain().unwrap();
        }
        assert_eq!(block.count(), k + 1);
        let mut left = Some(block);
        for j in 0..k {
            left = left.unwrap().release();
            assert_eq!(drops.get(), 0);
            assert_eq!(left.as_ref().unwrap().count(), k - j);
        }
        left = left.unwrap().release();
        assert!(left.is_none());
        assert_eq!(drops.get(), 1);
    }
}

#[test]
fn payload_can_be_read_through_the_block() {
    let block = ArcInner::new(std::string::String::from("payload"));
    assert_eq!(block.data(), "payload");
    let block = block.retain().unwrap();
    assert_eq!(block.data(), "payload");
    assert_eq!(block.count(), 2);
}

#[test]
fn clone_gives_up_at_the_largest_signed_size() {
    assert!(!clone_overflows(0));
    assert!(!clone_overflows(1));
    assert!(!clone_overflows(isize::MAX as usize - 1));
    assert!(clone_overflows(isize::MAX as usize));
    assert!(clone_overflows(usize::MAX));
}

#[test]
fn only_the_drop_that_finds_one_frees() {
    assert!(drop_frees(1));
    assert!(!drop_frees(2));
    assert!(!drop_frees(usize::MAX));
}

#[test]
fn handle_is_never_null() {
    assert!(NonNull::<u64>::new(0).is_none());
    let h = NonNull::<u64>::new(4096).unwrap();
    assert_eq!(h.as_ptr(), 4096);
    let copy = h;
    assert_eq!(copy.as_ptr(), h.as_ptr());
    assert_eq!(h.clone().as_ptr(), 4096);
}

#[test]
fn dangling_handle_is_aligned_and_not_null() {
    assert_eq!(NonNull::<u8>::dangling().as_ptr(), 1);
    assert_eq!(NonNull::<u32>::dangling().as_ptr(), std::mem::align_of::<u32>());
    assert_eq!(NonNull::<u64>::dangling().as_ptr(), std::mem::align_of::<u64>());
    assert_eq!(NonNull::<()>::dangling().as_ptr(), 1);
}

#[test]
fn growable_text_round_trip() {
    for s in ["", "hello", "na\u{ef}ve \u{1f980}"] {
        let text: String = std::string::String::from(s).into();
        assert_eq!(text.len(), s.len());
        assert_eq!(text.as_bytes(), s.as_bytes());
        assert_eq!(text.deref(), s);
        let back: std::string::String = text.into();
        assert_eq!(back, s);
    }
}
