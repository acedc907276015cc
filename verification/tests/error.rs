use uhd_canvas::error::ConvertError;

#[test]
fn each_failure_has_its_own_message() {
    let messages = [
        ConvertError::Decode.message(),
        ConvertError::TooLarge.message(),
        ConvertError::Encode.message(),
    ];
    assert_eq!(messages[0], "the file is not a JPEG picture that can be decoded");
    assert_eq!(messages[1], "the picture is too large to be resampled");
    assert_eq!(messages[2], "the canvas could not be encoded");
}
