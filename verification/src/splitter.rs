//! The splitter: fingerprint the inputs, try the cache, otherwise scale,
//! crop and save one fragment per monitor.

use vstd::prelude::*;
use crate::config::AppConfig;
use crate::fingerprint::{fingerprint, fingerprint_spec, u64_dec, u64_to_dec_string};
use crate::frame::{
    crop_image, decode_image, decode_ok, decode_rows, image_dims, img_rows, open_image,
    resize_fill_of, resize_image_to_fill, rows_wf, save_image, sub_rect,
};
use crate::geometry::{
    canvas_height, canvas_size, canvas_width, lemma_canvas_bounds, needs_scale, scale_needed,
    Monitor,
};

verus! {

/// One monitor's share of the wallpaper: the monitor's name, the cache file
/// the fragment lives in, and the decoded fragment itself.
pub struct ImageFragment {
    pub monitor_name: String,
    pub image_full_path: String,
    pub image: image::DynamicImage,
}

/// Splits one source image into per-monitor fragments under one
/// configuration.
pub struct Splitter {
    app_config: AppConfig,
    monitors: Vec<Monitor>,
}

/// The grid fragments are cut from: the source image's pixel grid,
/// fill-scaled to the canvas when the scale decision says so.
pub open spec fn split_source_rows(
    rows: Seq<Seq<int>>,
    monitors: Seq<Monitor>,
    no_downscale: bool,
) -> Seq<Seq<int>> {
    let ih = rows.len() as int;
    let iw = if rows.len() > 0 {
        rows[0].len() as int
    } else {
        0
    };
    let cw = canvas_width(monitors);
    let ch = canvas_height(monitors);
    if scale_needed(iw, ih, cw, ch, no_downscale) {
        resize_fill_of(rows, cw as u32, ch as u32)
    } else {
        rows
    }
}

/// A decoded grid the splitter can work on: at least one row and one
/// column.
pub open spec fn grid_nondegenerate(rows: Seq<Seq<int>>) -> bool {
    rows.len() >= 1 && rows[0].len() >= 1
}

/// The fill-scaling this input would need asks the resizer for a covering
/// size beyond `u32` (allowing for the resizer's rounding): the library
/// refuses such an input rather than hand back clamped, undersized
/// fragments.
pub open spec fn scale_out_of_range(
    rows: Seq<Seq<int>>,
    monitors: Seq<Monitor>,
    no_downscale: bool,
) -> bool {
    let ih = rows.len() as int;
    let iw = if rows.len() > 0 {
        rows[0].len() as int
    } else {
        0
    };
    let cw = canvas_width(monitors);
    let ch = canvas_height(monitors);
    &&& scale_needed(iw, ih, cw, ch, no_downscale)
    &&& (iw * ch > 0xffff_fffe * ih || ih * cw > 0xffff_fffe * iw)
}

/// One freshly split fragment: named after its monitor, stored at the
/// monitor's cache path, holding exactly the monitor's rectangle of the
/// source grid — so its dimensions equal the monitor's.
pub open spec fn fragment_matches(
    f: ImageFragment,
    m: Monitor,
    src: Seq<Seq<int>>,
    config: AppConfig,
    hash: Seq<char>,
) -> bool {
    &&& f.monitor_name@ == m.name@
    &&& f.image_full_path@ == config.fragment_path_spec(m.name@, hash)
    &&& img_rows(f.image) == sub_rect(src, m.x as int, m.y as int, m.width as int, m.height as int)
    &&& rows_wf(img_rows(f.image), m.width as int, m.height as int)
}

/// A fresh split: one fragment per monitor, in provider order, each matching
/// its monitor's rectangle of the source grid.
pub open spec fn fresh_fragments(
    frags: Seq<ImageFragment>,
    monitors: Seq<Monitor>,
    src: Seq<Seq<int>>,
    config: AppConfig,
    hash: Seq<char>,
) -> bool {
    &&& frags.len() == monitors.len()
    &&& forall|i: int|
        0 <= i < monitors.len() ==> fragment_matches(
            #[trigger] frags[i],
            monitors[i],
            src,
            config,
            hash,
        )
}

/// The bookkeeping that holds on the hit path and the miss path alike: one
/// fragment per monitor, in provider order, named after it and stored at its
/// cache path under the given fingerprint.
pub open spec fn fragments_named(
    frags: Seq<ImageFragment>,
    monitors: Seq<Monitor>,
    config: AppConfig,
    hash: Seq<char>,
) -> bool {
    &&& frags.len() == monitors.len()
    &&& forall|i: int|
        0 <= i < monitors.len() ==> {
            &&& (#[trigger] frags[i]).monitor_name@ == monitors[i].name@
            &&& frags[i].image_full_path@ == config.fragment_path_spec(monitors[i].name@, hash)
        }
}

/// What a successful run hands back: the fingerprint of the raw source
/// bytes — together with these monitors and this downscale policy — keys
/// every fragment's cache path; and when re-splitting was forced, the
/// fragments were freshly cut from the decoded source, so each has its
/// monitor's dimensions.
pub open spec fn run_outcome(
    frags: Seq<ImageFragment>,
    monitors: Seq<Monitor>,
    config: AppConfig,
    image_bytes: Seq<u8>,
) -> bool {
    let hash = u64_dec(fingerprint_spec(monitors, config.no_downscale, image_bytes) as nat);
    &&& fragments_named(frags, monitors, config, hash)
    &&& config.force_resplit ==> fresh_fragments(
        frags,
        monitors,
        split_source_rows(decode_rows(image_bytes), monitors, config.no_downscale),
        config,
        hash,
    )
}

/// Law: two successful runs over the same monitors, the same configuration
/// (one cache directory among them) and the same source bytes agree on
/// every fragment's name and cache path — the fingerprint and the path
/// scheme are functions of those inputs, so the second run looks exactly
/// where the first one wrote.
pub proof fn lemma_identical_runs_same_paths(
    frags1: Seq<ImageFragment>,
    frags2: Seq<ImageFragment>,
    monitors: Seq<Monitor>,
    config: AppConfig,
    image_bytes: Seq<u8>,
)
    requires
        run_outcome(frags1, monitors, config, image_bytes),
        run_outcome(frags2, monitors, config, image_bytes),
    ensures
        frags1.len() == frags2.len(),
        forall|i: int|
            0 <= i < frags1.len() ==> {
                &&& (#[trigger] frags1[i]).monitor_name@ == frags2[i].monitor_name@
                &&& frags1[i].image_full_path@ == frags2[i].image_full_path@
            },
{
    let hash = u64_dec(fingerprint_spec(monitors, config.no_downscale, image_bytes) as nat);
    assert(fragments_named(frags1, monitors, config, hash));
    assert(fragments_named(frags2, monitors, config, hash));
    assert forall|i: int| 0 <= i < frags1.len() implies {
        &&& (#[trigger] frags1[i]).monitor_name@ == frags2[i].monitor_name@
        &&& frags1[i].image_full_path@ == frags2[i].image_full_path@
    } by {
        assert(frags1[i].image_full_path@ == config.fragment_path_spec(monitors[i].name@, hash));
        assert(frags2[i].image_full_path@ == config.fragment_path_spec(monitors[i].name@, hash));
    }
}

/// Law: under a forced re-split, a successful run returns one fragment per
/// monitor, and every fragment's pixel grid has exactly its monitor's
/// dimensions.
pub proof fn lemma_forced_split_fragment_dims(
    frags: Seq<ImageFragment>,
    monitors: Seq<Monitor>,
    config: AppConfig,
    image_bytes: Seq<u8>,
)
    requires
        run_outcome(frags, monitors, config, image_bytes),
        config.force_resplit,
    ensures
        frags.len() == monitors.len(),
        forall|i: int|
            0 <= i < monitors.len() ==> #[trigger] rows_wf(
                img_rows(frags[i].image),
                monitors[i].width as int,
                monitors[i].height as int,
            ),
{
    let src = split_source_rows(decode_rows(image_bytes), monitors, config.no_downscale);
    let hash = u64_dec(fingerprint_spec(monitors, config.no_downscale, image_bytes) as nat);
    assert forall|i: int|
        0 <= i < monitors.len() implies #[trigger] rows_wf(
        img_rows(frags[i].image),
        monitors[i].width as int,
        monitors[i].height as int,
    ) by {
        assert(fragment_matches(frags[i], monitors[i], src, config, hash));
    }
}

impl Splitter {
    /// The configuration this splitter runs under.
    pub closed spec fn config(self) -> AppConfig {
        self.app_config
    }

    /// The monitor list this splitter splits for, in provider order.
    pub closed spec fn monitors(self) -> Seq<Monitor> {
        self.monitors@
    }

    /// There is at least one monitor and every monitor is well-formed.
    pub open spec fn wf(self) -> bool {
        &&& self.monitors().len() >= 1
        &&& forall|i: int| 0 <= i < self.monitors().len() ==> (#[trigger] self.monitors()[i]).wf()
    }

    /// Builds a splitter for one run from its configuration and monitor list.
    pub fn new(app_config: AppConfig, monitors: Vec<Monitor>) -> (r: Splitter)
        ensures
            r.config() == app_config,
            r.monitors() == monitors@,
    {
        Splitter { app_config, monitors }
    }

    /// Splits the source image — handed in as the raw bytes of its file, so
    /// the fingerprint covers exactly what is on disk — and returns the
    /// fragments in monitor order; when re-splitting was forced, every
    /// fragment is freshly cut, so its dimensions equal its monitor's.
    /// An undecodable or degenerate source is rejected before any cache
    /// interaction; an input whose fill-scaling the resizer cannot perform
    /// exactly is rejected rather than split wrong.
    pub fn run(&self, image_bytes: &Vec<u8>) -> (r: Result<Vec<ImageFragment>, String>)
        requires
            self.wf(),
        ensures
            r is Ok ==> run_outcome(r.get_Ok_0()@, self.monitors(), self.config(), image_bytes@),
            r is Ok ==> decode_ok(image_bytes@) && grid_nondegenerate(decode_rows(image_bytes@)),
            !(decode_ok(image_bytes@) && grid_nondegenerate(decode_rows(image_bytes@))) ==> r
                is Err && r.get_Err_0()@ == "failed to open image"@,
            self.config().force_resplit && decode_ok(image_bytes@) && grid_nondegenerate(
                decode_rows(image_bytes@),
            ) && scale_out_of_range(
                decode_rows(image_bytes@),
                self.monitors(),
                self.config().no_downscale,
            ) ==> r is Err && r.get_Err_0()@ == "image too large to scale"@,
    {
        self.get_split_image(image_bytes)
    }

    /// Decodes the raw source bytes and produces one fragment per monitor,
    /// from the cache when a complete set exists and re-splitting was not
    /// forced, otherwise by a fresh split of all monitors. An undecodable
    /// or degenerate source is rejected before any cache interaction; under
    /// a forced re-split, an input whose fill-scaling the resizer cannot
    /// perform exactly is rejected.
    pub fn get_split_image(&self, image_bytes: &Vec<u8>) -> (r: Result<
        Vec<ImageFragment>,
        String,
    >)
        requires
            self.wf(),
        ensures
            r is Ok ==> run_outcome(r.get_Ok_0()@, self.monitors(), self.config(), image_bytes@),
            r is Ok ==> decode_ok(image_bytes@) && grid_nondegenerate(decode_rows(image_bytes@)),
            !(decode_ok(image_bytes@) && grid_nondegenerate(decode_rows(image_bytes@))) ==> r
                is Err && r.get_Err_0()@ == "failed to open image"@,
            self.config().force_resplit && decode_ok(image_bytes@) && grid_nondegenerate(
                decode_rows(image_bytes@),
            ) && scale_out_of_range(
                decode_rows(image_bytes@),
                self.monitors(),
                self.config().no_downscale,
            ) ==> r is Err && r.get_Err_0()@ == "image too large to scale"@,
    {
        // Decode the source image; a degenerate (empty) image is as
        // unusable as an undecodable one.
        let image = match decode_image(image_bytes) {
            Ok(img) => img,
            Err(e) => {
                return Err(e);
            },
        };
        let (img_w, img_h) = image_dims(&image);
        if img_w == 0 || img_h == 0 {
            proof {
                assert(decode_rows(image_bytes@).len() == img_h as int);
                assert(img_h >= 1 ==> decode_rows(image_bytes@)[0].len() == img_w as int);
                assert(!grid_nondegenerate(decode_rows(image_bytes@)));
            }
            return Err("failed to open image".to_owned());
        }
        proof {
            assert(decode_rows(image_bytes@)[0].len() == img_w as int);
            assert(grid_nondegenerate(decode_rows(image_bytes@)));
        }
        // Fingerprint everything that makes this split unique: the monitor
        // layout, the downscale policy and the raw file bytes — so editing
        // the file in place invalidates the cache.
        let image_hash_num = fingerprint(
            &self.monitors,
            self.app_config.no_downscale,
            image_bytes,
        );
        let image_hash = u64_to_dec_string(image_hash_num);
        // A complete cached set is reused only when re-splitting was not
        // forced; a partial set counts as a full miss.
        if !self.app_config.force_resplit {
            match self.load_from_cache(image_hash.as_str()) {
                Ok(result_fragments) => {
                    proof {
                        assert(run_outcome(
                            result_fragments@,
                            self.monitors(),
                            self.config(),
                            image_bytes@,
                        ));
                    }
                    return Ok(result_fragments);
                },
                Err(_) => {},
            }
        }
        let ghost source_image = image;
        let r = self.perform_split(image, image_hash.as_str());
        proof {
            if r is Ok {
                let src = split_source_rows(
                    img_rows(source_image),
                    self.monitors(),
                    self.config().no_downscale,
                );
                assert(img_rows(source_image) == decode_rows(image_bytes@));
                assert(fresh_fragments(
                    r.get_Ok_0()@,
                    self.monitors(),
                    src,
                    self.config(),
                    image_hash@,
                ));
                assert(fragments_named(r.get_Ok_0()@, self.monitors(), self.config(), image_hash@));
                assert(run_outcome(r.get_Ok_0()@, self.monitors(), self.config(), image_bytes@));
            }
        }
        r
    }

    /// The miss path: derive the canvas, scale when needed, then crop and
    /// save every monitor's rectangle. Any save failure aborts the whole
    /// split; an input whose fill-scaling the resizer cannot perform
    /// exactly is rejected up front.
    fn perform_split(&self, image: image::DynamicImage, image_hash: &str) -> (r: Result<
        Vec<ImageFragment>,
        String,
    >)
        requires
            self.wf(),
            img_rows(image).len() >= 1,
            img_rows(image)[0].len() >= 1,
        ensures
            r is Ok ==> fresh_fragments(
                r.get_Ok_0()@,
                self.monitors(),
                split_source_rows(img_rows(image), self.monitors(), self.config().no_downscale),
                self.config(),
                image_hash@,
            ),
            scale_out_of_range(img_rows(image), self.monitors(), self.config().no_downscale) ==> r
                is Err && r.get_Err_0()@ == "image too large to scale"@,
    {
        // The canvas: big enough that every monitor's rectangle fits, and no
        // bigger. Offsets are taken as non-negative (see `Monitor::wf`).
        let (overall_width, overall_height) = canvas_size(&self.monitors);
        let (img_w, img_h) = image_dims(&image);
        let ghost src = split_source_rows(
            img_rows(image),
            self.monitors(),
            self.config().no_downscale,
        );
        proof {
            lemma_canvas_bounds(self.monitors());
            assert(self.monitors()[0].wf());
            assert(overall_width >= 1);
            assert(overall_height >= 1);
            assert(img_h as int == img_rows(image).len());
            assert(img_w as int == img_rows(image)[0].len());
        }
        // Scale to fill the canvas unless the caller opted out and the image
        // already covers it.
        let scale = needs_scale(
            img_w,
            img_h,
            overall_width,
            overall_height,
            self.app_config.no_downscale,
        );
        let ghost src_w: int = if scale {
            overall_width as int
        } else {
            img_w as int
        };
        let ghost src_h: int = if scale {
            overall_height as int
        } else {
            img_h as int
        };
        if scale {
            // Keep the fill-scaling's covering size within `u32` (with a
            // margin for its floating-point rounding): beyond that bound
            // the resize would clamp and hand back fragments smaller than
            // their monitors.
            let iw64: u64 = img_w as u64;
            let ih64: u64 = img_h as u64;
            let cw64: u64 = overall_width as u64;
            let ch64: u64 = overall_height as u64;
            let limit: u64 = 0xffff_fffe;
            proof {
                assert(iw64 * ch64 <= 0xffff_ffffu64 * 0xffff_ffffu64 && ih64 * cw64
                    <= 0xffff_ffffu64 * 0xffff_ffffu64 && limit * ih64 <= 0xffff_ffffu64
                    * 0xffff_ffffu64 && limit * iw64 <= 0xffff_ffffu64 * 0xffff_ffffu64)
                    by (nonlinear_arith)
                    requires
                        iw64 <= 0xffff_ffffu64,
                        ih64 <= 0xffff_ffffu64,
                        cw64 <= 0xffff_ffffu64,
                        ch64 <= 0xffff_ffffu64,
                        limit == 0xffff_fffeu64,
                ;
            }
            if iw64 * ch64 > limit * ih64 || ih64 * cw64 > limit * iw64 {
                return Err("image too large to scale".to_owned());
            }
        }
        proof {
            assert(!scale_out_of_range(
                img_rows(image),
                self.monitors(),
                self.config().no_downscale,
            ));
        }
        let work: image::DynamicImage = if scale {
            resize_image_to_fill(&image, overall_width, overall_height)
        } else {
            image
        };
        proof {
            assert(img_rows(work) == src);
            assert(rows_wf(src, src_w, src_h));
            assert(canvas_width(self.monitors()) <= src_w);
            assert(canvas_height(self.monitors()) <= src_h);
        }
        // Crop one fragment per monitor and save it at its cache path.
        let mut result: Vec<ImageFragment> = Vec::new();
        let mut i: usize = 0;
        #[verifier::loop_isolation(false)]
        while i < self.monitors.len()
            invariant
                0 <= i <= self.monitors@.len(),
                self.wf(),
                img_rows(work) == src,
                rows_wf(src, src_w, src_h),
                canvas_width(self.monitors()) <= src_w,
                canvas_height(self.monitors()) <= src_h,
                result@.len() == i,
                forall|j: int|
                    0 <= j < i ==> fragment_matches(
                        #[trigger] result@[j],
                        self.monitors()[j],
                        src,
                        self.config(),
                        image_hash@,
                    ),
            decreases self.monitors@.len() - i,
        {
            let m = &self.monitors[i];
            proof {
                assert(self.monitors()[i as int].wf());
                lemma_canvas_bounds(self.monitors());
            }
            let cropped_image = crop_image(&work, m.x as u32, m.y as u32, m.width, m.height);
            let fragment_save_path = self.app_config.resolve_cached_fragment_path(
                m.name.as_str(),
                image_hash,
            );
            match save_image(&cropped_image, fragment_save_path.as_str()) {
                Ok(_) => {},
                Err(e) => {
                    return Err(e);
                },
            }
            result.push(
                ImageFragment {
                    monitor_name: m.name.clone(),
                    image_full_path: fragment_save_path,
                    image: cropped_image,
                },
            );
            i = i + 1;
        }
        Ok(result)
    }

    /// The hit path: open every monitor's cached fragment file; the first
    /// failure makes the whole fingerprint a miss, so a partial set is never
    /// returned, and the only failure is a file that would not open.
    fn load_from_cache(&self, hash: &str) -> (r: Result<Vec<ImageFragment>, String>)
        requires
            self.wf(),
        ensures
            r is Ok ==> fragments_named(r.get_Ok_0()@, self.monitors(), self.config(), hash@),
            r is Err ==> r.get_Err_0()@ == "failed to open image"@,
    {
        let mut result_fragments: Vec<ImageFragment> = Vec::new();
        let mut i: usize = 0;
        while i < self.monitors.len()
            invariant
                0 <= i <= self.monitors@.len(),
                self.wf(),
                result_fragments@.len() == i,
                forall|j: int|
                    0 <= j < i ==> {
                        &&& (#[trigger] result_fragments@[j]).monitor_name@ == self.monitors()[j].name@
                        &&& result_fragments@[j].image_full_path@
                            == self.config().fragment_path_spec(self.monitors()[j].name@, hash@)
                    },
            decreases self.monitors@.len() - i,
        {
            let m = &self.monitors[i];
            let image_full_path = self.app_config.resolve_cached_fragment_path(
                m.name.as_str(),
                hash,
            );
            let image = match open_image(image_full_path.as_str()) {
                Ok(img) => img,
                Err(e) => {
                    return Err(e);
                },
            };
            result_fragments.push(
                ImageFragment { monitor_name: m.name.clone(), image_full_path, image },
            );
            i = i + 1;
        }
        Ok(result_fragments)
    }
}

} // verus!
