// I420 planes to RGB, letterboxed and rotated, for one video tile.

struct Uniforms {
    // "Contain" fit: 1.0 on the filled axis, less where a bar shows.
    scale: vec2<f32>,
    // 1 when the target is an sRGB format, which encodes on write.
    srgb: u32,
    // Clockwise quarter turns that make the frame upright.
    rotation: u32,
};

@group(0) @binding(0) var plane_y: texture_2d<f32>;
@group(0) @binding(1) var plane_u: texture_2d<f32>;
@group(0) @binding(2) var plane_v: texture_2d<f32>;
@group(0) @binding(3) var plane_sampler: sampler;
@group(0) @binding(4) var<uniform> uniforms: Uniforms;

struct VertexOutput {
    @builtin(position) position: vec4<f32>,
    @location(0) uv: vec2<f32>,
};

// One triangle that covers the whole viewport; no vertex buffer.
@vertex
fn vs_main(@builtin(vertex_index) index: u32) -> VertexOutput {
    let corner = vec2<f32>(f32((index << 1u) & 2u), f32(index & 2u));
    let clip = corner * 2.0 - 1.0;

    // Widget space, stretched by the letterbox so the video keeps its aspect.
    var uv = (vec2<f32>(clip.x, -clip.y) / uniforms.scale) * 0.5;

    // Undo the frame's rotation so the picture appears upright.
    for (var turn = 0u; turn < uniforms.rotation % 4u; turn = turn + 1u) {
        uv = vec2<f32>(uv.y, -uv.x);
    }

    var out: VertexOutput;
    out.position = vec4<f32>(clip, 0.0, 1.0);
    out.uv = uv + 0.5;
    return out;
}

fn to_linear(c: vec3<f32>) -> vec3<f32> {
    let low = c / 12.92;
    let high = pow((c + 0.055) / 1.055, vec3<f32>(2.4));
    return select(high, low, c <= vec3<f32>(0.04045));
}

@fragment
fn fs_main(in: VertexOutput) -> @location(0) vec4<f32> {
    // Sampled before any branch: implicit-derivative sampling needs uniform
    // control flow.
    let luma = textureSample(plane_y, plane_sampler, in.uv).r;
    let cb = textureSample(plane_u, plane_sampler, in.uv).r;
    let cr = textureSample(plane_v, plane_sampler, in.uv).r;

    // BT.601, limited range.
    let y = (luma - 16.0 / 255.0) * (255.0 / 219.0);
    let u = (cb - 128.0 / 255.0) * (255.0 / 224.0);
    let v = (cr - 128.0 / 255.0) * (255.0 / 224.0);

    var rgb = clamp(
        vec3<f32>(y + 1.402 * v, y - 0.344136 * u - 0.714136 * v, y + 1.772 * u),
        vec3<f32>(0.0),
        vec3<f32>(1.0),
    );

    if uniforms.srgb == 1u {
        rgb = to_linear(rgb);
    }

    // Outside the picture: the letterbox bar, left transparent.
    let inside = all(in.uv >= vec2<f32>(0.0)) && all(in.uv <= vec2<f32>(1.0));
    return select(vec4<f32>(0.0), vec4<f32>(rgb, 1.0), inside);
}
