use repo_state::image::{data_url_from_base64, image_data_url};

#[test]
fn png_bytes_become_data_url() {
    assert_eq!(image_data_url(&b"hi".to_vec()), "data:image/png;base64,aGk=");
    assert_eq!(image_data_url(&vec![0x89, 0x50, 0x4e, 0x47]), "data:image/png;base64,iVBORw==");
    assert_eq!(image_data_url(&vec![]), "data:image/png;base64,");
    assert_eq!(data_url_from_base64("QUJD"), "data:image/png;base64,QUJD");
}
