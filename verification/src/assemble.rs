use vstd::prelude::*;
use vstd::string::StringExecFns;

verus! {

/// The argument list for the external video encoder: overwrite the
/// output, read the numbered frame sequence of `input_dir` at a fixed
/// input frame rate, and encode it as H.264 with the yuv420p pixel
/// format into `output_file`. Assembling is independent of any active
/// session; the external process does all parsing of the images.
pub fn video_command_args(input_dir: &str, output_file: &str) -> (r: Vec<String>)
    ensures
        r@.len() == 10,
        r@[0]@ == "-y"@,
        r@[1]@ == "-framerate"@,
        r@[2]@ == "10"@,
        r@[3]@ == "-i"@,
        r@[4]@ == input_dir@ + "/frame_%05d.png"@,
        r@[5]@ == "-c:v"@,
        r@[6]@ == "libx264"@,
        r@[7]@ == "-pix_fmt"@,
        r@[8]@ == "yuv420p"@,
        r@[9]@ == output_file@,
{
    let mut pattern = String::from_str(input_dir);
    pattern.append("/frame_%05d.png");
    let mut args: Vec<String> = Vec::new();
    args.push(String::from_str("-y"));
    args.push(String::from_str("-framerate"));
    args.push(String::from_str("10"));
    args.push(String::from_str("-i"));
    args.push(pattern);
    args.push(String::from_str("-c:v"));
    args.push(String::from_str("libx264"));
    args.push(String::from_str("-pix_fmt"));
    args.push(String::from_str("yuv420p"));
    args.push(String::from_str(output_file));
    args
}

} // verus!
