use timescale_vector::error::IndexError;
use timescale_vector::pointer::ItemPointer;
use timescale_vector::pq_quantizer_storage::{
    chunk_capacity, read_pq, write_pq, CentroidTensor, PqQuantizerDef, PqQuantizerVector,
    DEFAULT_PAGE_CAPACITY_ELEMS, RESERVED_CHUNK_OVERHEAD,
};
use timescale_vector::store::{PageStore, Record};

fn tensor_of(dim_0: usize, dim_1: usize, dim_2: usize, elems: Vec<u32>) -> CentroidTensor {
    CentroidTensor::from_flat(dim_0, dim_1, dim_2, elems).unwrap()
}

fn round_trip(len: usize, page_capacity: usize) {
    let elems: Vec<u32> = (0..len as u32).collect();
    let tensor = tensor_of(1, 1, len, elems.clone());
    let mut store = PageStore::new(1000);
    let ptr = write_pq(&mut store, &tensor, page_capacity).unwrap();
    let decoded = read_pq(&store, ptr, page_capacity).unwrap();
    assert_eq!(decoded.dims(), (1, 1, len));
    assert_eq!(decoded.elements().as_slice(), elems.as_slice());
}

#[test]
fn round_trip_empty() {
    round_trip(0, RESERVED_CHUNK_OVERHEAD + 20);
}

#[test]
fn round_trip_below_one_chunk() {
    round_trip(7, RESERVED_CHUNK_OVERHEAD + 20);
}

#[test]
fn round_trip_exactly_one_chunk() {
    round_trip(20, RESERVED_CHUNK_OVERHEAD + 20);
}

#[test]
fn round_trip_many_chunks() {
    round_trip(137, RESERVED_CHUNK_OVERHEAD + 20);
}

#[test]
fn round_trip_single_element_chunks() {
    round_trip(5, RESERVED_CHUNK_OVERHEAD + 1);
}

#[test]
fn round_trip_at_default_page_capacity() {
    // Three chunks' worth of elements at the host block size.
    let fit = DEFAULT_PAGE_CAPACITY_ELEMS - RESERVED_CHUNK_OVERHEAD;
    round_trip(2 * fit + 17, DEFAULT_PAGE_CAPACITY_ELEMS);
}

#[test]
fn chunk_capacity_subtracts_reserved_overhead() {
    assert_eq!(chunk_capacity(RESERVED_CHUNK_OVERHEAD + 30).unwrap(), 30);
    assert_eq!(
        chunk_capacity(RESERVED_CHUNK_OVERHEAD),
        Err(IndexError::CapacityFault)
    );
    assert_eq!(chunk_capacity(0), Err(IndexError::CapacityFault));
}

#[test]
fn scenario_tensor_2_4_8_splits_into_four_chunks() {
    // 64 elements at 20 elements per chunk: chunks of 20, 20, 20 and 4 are
    // written tail first, so decoding visits 4, 20, 20, 20.
    let capacity = RESERVED_CHUNK_OVERHEAD + 20;
    let elems: Vec<u32> = (0..64).collect();
    let tensor = tensor_of(2, 4, 8, elems.clone());
    let mut store = PageStore::new(1000);
    let before = store.num_records();
    let ptr = write_pq(&mut store, &tensor, capacity).unwrap();
    assert_eq!(store.num_records() - before, 5); // 4 chunks + 1 header

    let decoded = read_pq(&store, ptr, capacity).unwrap();
    assert_eq!(decoded.dims(), (2, 4, 8));
    assert_eq!(decoded.elements().as_slice(), elems.as_slice());

    // Walk the chain by hand: the header points at the logically first
    // (last-written) chunk, and back-pointers reach the tail chunk whose
    // next pointer is the null sentinel.
    let def = PqQuantizerDef::read(&store, ptr).unwrap();
    assert_eq!(def.vec_len, 64);
    let mut sizes: Vec<usize> = Vec::new();
    let mut collected: Vec<u32> = Vec::new();
    let mut next = def.next_vector_pointer;
    while !next.is_null() {
        let chunk = PqQuantizerVector::read(&store, next).unwrap();
        sizes.push(chunk.vec.len());
        collected.extend_from_slice(chunk.vec.as_slice());
        next = chunk.next_vector_pointer;
    }
    assert_eq!(sizes, vec![4, 20, 20, 20]);
    assert_eq!(collected, elems);
}

#[test]
fn write_rejects_capacity_without_room_for_elements() {
    let tensor = tensor_of(1, 1, 4, vec![1, 2, 3, 4]);
    let mut store = PageStore::new(1000);
    assert_eq!(
        write_pq(&mut store, &tensor, RESERVED_CHUNK_OVERHEAD),
        Err(IndexError::CapacityFault)
    );
    assert_eq!(store.num_records(), 0);
}

#[test]
fn write_rejects_store_out_of_space() {
    // 25 elements at fit 10 need 3 chunks + 1 header; a 3-slot store is
    // refused before anything is written.
    let capacity = RESERVED_CHUNK_OVERHEAD + 10;
    let elems: Vec<u32> = (0..25).collect();
    let tensor = tensor_of(1, 5, 5, elems);
    let mut store = PageStore::new(3);
    assert_eq!(
        write_pq(&mut store, &tensor, capacity),
        Err(IndexError::AllocationFault)
    );
    assert_eq!(store.num_records(), 0);
}

#[test]
fn read_rejects_dangling_header_pointer() {
    let store = PageStore::new(10);
    let capacity = RESERVED_CHUNK_OVERHEAD + 10;
    assert!(matches!(read_pq(&store, ItemPointer::new(5, 1), capacity), Err(IndexError::CorruptionFault)));
}

#[test]
fn read_rejects_wrong_record_kind() {
    let capacity = RESERVED_CHUNK_OVERHEAD + 10;
    let mut store = PageStore::new(10);
    let chunk = PqQuantizerVector { vec: vec![1, 2], next_vector_pointer: ItemPointer::null() };
    let p = chunk.write(&mut store).unwrap();
    assert!(matches!(read_pq(&store, p, capacity), Err(IndexError::CorruptionFault)));
}

#[test]
fn read_rejects_shape_count_mismatch() {
    let capacity = RESERVED_CHUNK_OVERHEAD + 10;
    let mut store = PageStore::new(10);
    // Header claims 5 elements but a (1, 2, 2) shape.
    let def = PqQuantizerDef {
        dim_0: 1,
        dim_1: 2,
        dim_2: 2,
        vec_len: 5,
        next_vector_pointer: ItemPointer::null(),
    };
    let p = def.write(&mut store).unwrap();
    assert!(matches!(read_pq(&store, p, capacity), Err(IndexError::CorruptionFault)));
}

#[test]
fn read_rejects_declared_count_longer_than_chain() {
    let capacity = RESERVED_CHUNK_OVERHEAD + 10;
    let mut store = PageStore::new(10);
    let chunk = PqQuantizerVector { vec: vec![1, 2, 3], next_vector_pointer: ItemPointer::null() };
    let chunk_ptr = chunk.write(&mut store).unwrap();
    let def = PqQuantizerDef {
        dim_0: 1,
        dim_1: 1,
        dim_2: 9,
        vec_len: 9,
        next_vector_pointer: chunk_ptr,
    };
    let p = def.write(&mut store).unwrap();
    assert!(matches!(read_pq(&store, p, capacity), Err(IndexError::CorruptionFault)));
}

#[test]
fn read_reports_cyclic_chain_as_corruption() {
    // A chunk whose back-pointer is itself: the decoder must stop at the hop
    // budget and report corruption instead of following the cycle.
    let capacity = RESERVED_CHUNK_OVERHEAD + 10;
    let mut store = PageStore::new(10);
    let self_ptr = ItemPointer::new(0, 1); // the first slot the store hands out
    let chunk = PqQuantizerVector { vec: vec![7, 7], next_vector_pointer: self_ptr };
    let chunk_ptr = chunk.write(&mut store).unwrap();
    assert_eq!(chunk_ptr, self_ptr);
    let def = PqQuantizerDef {
        dim_0: 1,
        dim_1: 2,
        dim_2: 3,
        vec_len: 6,
        next_vector_pointer: chunk_ptr,
    };
    let p = def.write(&mut store).unwrap();
    assert!(matches!(read_pq(&store, p, capacity), Err(IndexError::CorruptionFault)));
}

#[test]
fn from_flat_rejects_mismatched_shape() {
    assert!(CentroidTensor::from_flat(2, 2, 2, vec![0; 8]).is_ok());
    assert!(CentroidTensor::from_flat(2, 2, 2, vec![0; 7]).is_err());
    assert!(CentroidTensor::from_flat(0, 2, 2, Vec::new()).is_ok());
}

#[test]
fn header_written_after_chunks() {
    // The header lands on the slot after every chunk, so a failed build can
    // never leave a header pointing at a half-written chain.
    let capacity = RESERVED_CHUNK_OVERHEAD + 10;
    let elems: Vec<u32> = (0..15).collect();
    let tensor = tensor_of(1, 3, 5, elems);
    let mut store = PageStore::new(100);
    let ptr = write_pq(&mut store, &tensor, capacity).unwrap();
    // 2 chunks then the header: slots 0, 1, 2.
    assert_eq!(ptr, ItemPointer::new(0, 3));
    match store.read_record(ptr) {
        Some(Record::QuantizerDef(_)) => {}
        _ => panic!("header expected at the last allocated slot"),
    }
}
