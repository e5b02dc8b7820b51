use gltf_opt::prelude::{optimize, ConversionError, Document, Ktx2Job, Output};

fn plus(a: u32, _b: u32) -> u32 {
    a
}

fn compress(job: Ktx2Job) -> Result<Vec<u8>, String> {
    Ok(job.rgba)
}

#[test]
fn the_prelude_is_enough_to_rebuild_a_document() {
    let result: Result<Output, ConversionError> =
        optimize(&Document::new(), &[], 1024, true, false, None, &plus, &compress);
    let out = result.unwrap();
    assert_eq!(out.blob.len(), 0);
    assert_eq!(out.document.buffers.len(), 1);
    assert_eq!(out.document.buffers[0].byte_length, 0);
}
