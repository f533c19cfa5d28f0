use voxel_world::lattice::lattice_cell;
use voxel_world::queries::{CREATE_CHUNK_TABLE, READ_CHUNK_DATA, SAVE_CHUNK_DATA};

#[test]
fn coordinates_fall_in_their_cells() {
    assert_eq!(lattice_cell(7, 3), (2, 1));
    assert_eq!(lattice_cell(6, 3), (2, 0));
    assert_eq!(lattice_cell(0, 4), (0, 0));
    assert_eq!(lattice_cell(5, 1), (5, 0));
}

#[test]
fn chunk_queries_name_the_data_table() {
    assert!(CREATE_CHUNK_TABLE.contains("CREATE TABLE IF NOT EXISTS data"));
    assert!(SAVE_CHUNK_DATA.contains("INSERT OR REPLACE INTO data"));
    assert!(READ_CHUNK_DATA.contains("WHERE tid = ?1 AND x = ?2 AND y = ?3 AND z = ?4"));
}
